use zcash_scanner::auth::auth;
use zcash_scanner::error::ScanError;
use zcash_scanner::lightwalletd::{
    connect, start_connecting, upstream, ConnectAction, ConnectReply, CONNECT_ATTEMPTS,
    CONNECT_PAUSE_MS,
};
use zcash_scanner::text::same_text;

#[test]
fn the_secret_passes() {
    assert!(auth(Some("hunter2"), "hunter2").is_ok());
    assert!(auth(Some("gr\u{fc}n"), "gr\u{fc}n").is_ok());
}

#[test]
fn anything_else_is_unauthorized() {
    assert!(matches!(auth(None, "hunter2"), Err(ScanError::Unauthorized)));
    for presented in ["", "hunter", "hunter3", "hunter22", "HUNTER2"] {
        assert!(matches!(auth(Some(presented), "hunter2"), Err(ScanError::Unauthorized)));
    }
}

#[test]
fn nothing_matches_an_empty_secret_only() {
    assert!(auth(None, "").is_ok());
    assert!(auth(Some(""), "").is_ok());
    assert!(auth(Some(" "), "").is_err());
}

#[test]
fn errors_map_to_responses() {
    let cases = [
        (ScanError::Unauthorized, 401, "unauthorized", "unauthorized"),
        (ScanError::BadRequest("too far".to_string()), 400, "bad_request", "too far"),
        (ScanError::Upstream, 502, "upstream_error", "upstream_error"),
        (ScanError::Internal, 500, "internal_error", "internal_error"),
    ];
    for (error, status, code, message) in cases {
        let response = error.into_response();
        assert_eq!(response.status, status);
        assert_eq!(response.error, code);
        assert_eq!(response.message, message);
    }
}

#[test]
fn errors_describe_themselves() {
    assert_eq!(ScanError::Unauthorized.description(), "unauthorized");
    assert_eq!(ScanError::BadRequest("x".to_string()).description(), "bad request: x");
    assert_eq!(ScanError::Upstream.description(), "upstream lightwalletd error");
    assert_eq!(ScanError::Internal.description(), "scan failed");
}

#[test]
fn upstream_forgets_the_cause() {
    let map = upstream::<String>("get_latest_block");
    assert!(matches!(map("the details".to_string()), ScanError::Upstream));
}

#[test]
fn https_addresses_use_tls() {
    let secured = connect("https://zec.rocks:443").unwrap();
    assert!(secured.tls());
    assert!(matches!(secured.pending(), ConnectAction::Secure));
    for plain in ["http://localhost:9067", "localhost:9067", "HTTPS://zec.rocks:443"] {
        let run = connect(plain).unwrap();
        assert!(!run.tls());
        assert!(matches!(run.pending(), ConnectAction::Open));
    }
}

#[test]
fn addresses_that_do_not_parse_are_given_up() {
    for url in ["not a url", "", " https://zec.rocks:443", "https://", "http://[::1", "a\u{e9}"] {
        assert!(matches!(connect(url), Err(ScanError::Upstream)));
    }
}

#[test]
fn nothing_is_opened_without_tls() {
    let mut run = connect("https://zec.rocks:443").unwrap();
    assert!(matches!(run.advance(ConnectReply::Refused), Err(ScanError::Upstream)));
    assert!(matches!(run.pending(), ConnectAction::Nothing));

    let mut run = connect("https://zec.rocks:443").unwrap();
    assert!(matches!(run.advance(ConnectReply::Opened), Err(ScanError::Upstream)));
    assert!(matches!(run.pending(), ConnectAction::Nothing));
}

#[test]
fn connecting_starts_with_what_the_address_asks_for() {
    assert!(matches!(start_connecting(true).pending(), ConnectAction::Secure));
    assert!(matches!(start_connecting(false).pending(), ConnectAction::Open));
    assert!(start_connecting(true).tls() && !start_connecting(false).tls());
}

#[test]
fn first_attempt_can_succeed() {
    let mut run = connect("http://localhost:9067").unwrap();
    assert!(matches!(run.pending(), ConnectAction::Open));
    assert!(matches!(run.advance(ConnectReply::Opened), Ok(true)));
    assert!(matches!(run.pending(), ConnectAction::Nothing));
}

#[test]
fn refused_attempts_are_repeated_after_growing_pauses() {
    let mut run = connect("https://zec.rocks:443").unwrap();
    let mut pauses = Vec::new();
    let mut attempts = 0;
    let outcome = loop {
        let reply = match run.pending() {
            ConnectAction::Secure => {
                assert_eq!(attempts, 0);
                ConnectReply::Secured
            }
            ConnectAction::Open => {
                attempts += 1;
                ConnectReply::Refused
            }
            ConnectAction::Pause(ms) => {
                pauses.push(ms);
                ConnectReply::Paused
            }
            ConnectAction::Nothing => unreachable!(),
        };
        match run.advance(reply) {
            Ok(false) => {}
            other => break other,
        }
    };
    assert!(matches!(outcome, Err(ScanError::Upstream)));
    assert_eq!(attempts, 3);
    assert_eq!(attempts, CONNECT_ATTEMPTS);
    assert_eq!(pauses, vec![400, 800, 1200]);
    assert_eq!(CONNECT_PAUSE_MS, 400);
}

#[test]
fn second_attempt_can_succeed() {
    let mut run = connect("https://zec.rocks:443").unwrap();
    assert!(matches!(run.advance(ConnectReply::Secured), Ok(false)));
    assert!(matches!(run.advance(ConnectReply::Refused), Ok(false)));
    assert!(matches!(run.advance(ConnectReply::Paused), Ok(false)));
    assert!(matches!(run.pending(), ConnectAction::Open));
    assert!(matches!(run.advance(ConnectReply::Opened), Ok(true)));
}

#[test]
fn unfit_reply_gives_the_connection_up() {
    let mut run = connect("http://localhost:9067").unwrap();
    assert!(matches!(run.advance(ConnectReply::Paused), Err(ScanError::Upstream)));
    assert!(matches!(run.pending(), ConnectAction::Nothing));
}

#[test]
fn texts_are_compared_by_content() {
    assert!(same_text("", ""));
    assert!(same_text("\u{e9}t\u{e9}", "\u{e9}t\u{e9}"));
    assert!(!same_text("ete", "\u{e9}t\u{e9}"));
    assert!(!same_text("a", "ab"));
    assert!(!same_text("ab", "aB"));
}

use zcash_scanner::chain::Network;
use zcash_scanner::config::{network_for, opt, req, Config, ConfigError, Env};

fn test_cfg(network: &str) -> Config {
    Config {
        bind_addr: "0.0.0.0:0".to_string(),
        lightwalletd_url: "https://example:443".to_string(),
        shared_secret: "test-secret".to_string(),
        network: network.to_string(),
        max_scan_blocks: 100,
    }
}

fn env(vars: &[(&str, &str)]) -> Env {
    let mut env = Env::new();
    for (key, value) in vars {
        env.set(key, value.to_string());
    }
    env
}

#[test]
fn opt_returns_default_when_unset() {
    let key = "ZS_TEST_OPT_UNSET";
    let mut env = Env::new();
    env.remove(key);
    assert_eq!(opt(&env, key, "fallback"), "fallback");
}

#[test]
fn opt_treats_blank_as_unset() {
    let key = "ZS_TEST_OPT_BLANK";
    let mut env = Env::new();
    env.set(key, "   ".to_string());
    assert_eq!(opt(&env, key, "0.0.0.0:8080"), "0.0.0.0:8080");
}

#[test]
fn opt_uses_value_and_trims() {
    let key = "ZS_TEST_OPT_SET";
    let mut env = Env::new();
    env.set(key, "  https://zec.rocks:443  ".to_string());
    assert_eq!(opt(&env, key, "default"), "https://zec.rocks:443");
}

#[test]
fn req_errors_when_unset_or_blank() {
    let key = "ZS_TEST_REQ_MISSING";
    let mut env = Env::new();
    env.remove(key);
    assert!(req(&env, key).is_err());
    env.set(key, "".to_string());
    assert!(req(&env, key).is_err());
}

#[test]
fn req_ok_when_set() {
    let key = "ZS_TEST_REQ_SET";
    let mut env = Env::new();
    env.set(key, " secret ".to_string());
    assert_eq!(req(&env, key).unwrap(), "secret");
}

#[test]
fn variables_can_be_changed_and_removed() {
    let mut env = env(&[("A", "1"), ("B", "2")]);
    env.set("A", "3".to_string());
    assert_eq!(opt(&env, "A", ""), "3");
    env.remove("A");
    assert_eq!(opt(&env, "A", "none"), "none");
    assert_eq!(opt(&env, "B", "none"), "2");
}

#[test]
fn network_for_maps_test_and_main() {
    assert!(matches!(network_for(&test_cfg("test")), Network::TestNetwork));
    assert!(matches!(network_for(&test_cfg("main")), Network::MainNetwork));
    // Anything unrecognised falls back to the main network.
    assert!(matches!(network_for(&test_cfg("wat")), Network::MainNetwork));
}

#[test]
fn network_names_are_matched_exactly() {
    for name in ["", "Test", "tes", "test ", "testnet", "TEST"] {
        assert!(matches!(network_for(&test_cfg(name)), Network::MainNetwork));
    }
}

#[test]
fn missing_variable_is_named() {
    let error = req(&env(&[("SOME_KEY", " \t\n")]), "SOME_KEY").unwrap_err();
    assert_eq!(error.description(), "missing/empty required env var: SOME_KEY");
    assert!(matches!(error, ConfigError::Missing(key) if key == "SOME_KEY"));
}

#[test]
fn environment_with_a_secret_gives_the_defaults() {
    let cfg = Config::from_env(&env(&[("SCANNER_SHARED_SECRET", " top\u{a0}")])).unwrap();
    assert_eq!(cfg.bind_addr, "0.0.0.0:8080");
    assert_eq!(cfg.lightwalletd_url, "https://zec.rocks:443");
    assert_eq!(cfg.shared_secret, "top");
    assert_eq!(cfg.network, "main");
    assert_eq!(cfg.max_scan_blocks, 2_000_000);
}

#[test]
fn environment_overrides_the_defaults() {
    let cfg = Config::from_env(&env(&[
        ("SCANNER_BIND_ADDR", "127.0.0.1:9"),
        ("LIGHTWALLETD_URL", "http://localhost:9067"),
        ("SCANNER_SHARED_SECRET", "s"),
        ("ZCASH_NETWORK", " test "),
        ("SCANNER_MAX_SCAN_BLOCKS", " 42 "),
    ]))
    .unwrap();
    assert_eq!(cfg.bind_addr, "127.0.0.1:9");
    assert_eq!(cfg.lightwalletd_url, "http://localhost:9067");
    assert_eq!(cfg.network, "test");
    assert!(matches!(network_for(&cfg), Network::TestNetwork));
    assert_eq!(cfg.max_scan_blocks, 42);
}

#[test]
fn environment_without_a_secret_is_refused() {
    let blank = env(&[("SCANNER_SHARED_SECRET", "\u{3000} \u{85}"), ("ZCASH_NETWORK", "test")]);
    for env in [Env::new(), env(&[("SCANNER_SHARED_SECRET", "")]), blank] {
        match Config::from_env(&env) {
            Ok(_) => panic!("a configuration without a secret"),
            Err(ConfigError::Missing(key)) => assert_eq!(key, "SCANNER_SHARED_SECRET"),
        }
    }
}

#[test]
fn block_limit_is_parsed_or_defaulted() {
    let limit = |text: &str| {
        let vars = [("SCANNER_SHARED_SECRET", "s"), ("SCANNER_MAX_SCAN_BLOCKS", text)];
        Config::from_env(&env(&vars)).unwrap().max_scan_blocks
    };
    assert_eq!(limit("0"), 0);
    assert_eq!(limit("+7"), 7);
    assert_eq!(limit("007"), 7);
    assert_eq!(limit("18446744073709551615"), u64::MAX);
    assert_eq!(limit("18446744073709551616"), 2_000_000);
    assert_eq!(limit("-1"), 2_000_000);
    assert_eq!(limit("+"), 2_000_000);
    assert_eq!(limit("12x"), 2_000_000);
    assert_eq!(limit("1 2"), 2_000_000);
    assert_eq!(limit("\u{663}"), 2_000_000);
    assert_eq!(limit("  "), 2_000_000);
}

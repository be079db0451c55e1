//! What the service tells its callers, how it is configured and how it reaches its server.

use crate::auth::presented_text;
use crate::chain::Network;
use crate::config::{blocks_of, network_named, value_of, value_or, ConfigError};
use crate::encoding::parsed_u64;
use crate::error::{ScanError, ScanErrorView};
use crate::lightwalletd::{
    after_refusals, attempts_are_bounded, ConnectAction, ConnectReply, ConnectRunView, ConnectStage,
};
use crate::text::{
    is_white_space, trim_end, trim_end_facts, trim_start, trim_start_facts, trimmed, trimmed_facts,
};
use vstd::prelude::*;

verus! {

/// Trimming cuts whitespace off both ends and nothing else: the text is what was cut off in
/// front, the trimmed text, and what was cut off behind.
pub proof fn trimming_cuts_whitespace_only(s: Seq<char>) -> (cut: (Seq<char>, Seq<char>))
    ensures
        s == cut.0 + trimmed(s) + cut.1,
        forall|i: int| 0 <= i < cut.0.len() ==> is_white_space(cut.0[i]),
        forall|i: int| 0 <= i < cut.1.len() ==> is_white_space(cut.1[i]),
        trimmed(s).len() > 0 ==> !is_white_space(trimmed(s).first()) && !is_white_space(
            trimmed(s).last(),
        ),
{
    let t = trim_start(s);
    let front = front_cut(s);
    let back = back_cut(t);
    trim_start_facts(s);
    trim_end_facts(t);
    if trimmed(s).len() > 0 {
        assert(trimmed(s)[0] == t[0]);
    }
    assert(s =~= front + trimmed(s) + back);
    (front, back)
}

proof fn front_cut(s: Seq<char>) -> (cut: Seq<char>)
    ensures
        s == cut + trim_start(s),
        forall|i: int| 0 <= i < cut.len() ==> is_white_space(cut[i]),
    decreases s.len(),
{
    if s.len() > 0 && is_white_space(s.first()) {
        let d = s.drop_first();
        let rest = front_cut(d);
        let cut = seq![s.first()] + rest;
        assert(s =~= seq![s.first()] + d);
        assert(seq![s.first()] + (rest + trim_start(d)) =~= cut + trim_start(d));
        assert(s =~= cut + trim_start(s));
        assert forall|i: int| 0 <= i < cut.len() implies is_white_space(cut[i]) by {
            if i > 0 {
                assert(cut[i] == rest[i - 1]);
            }
        }
        cut
    } else {
        assert(s =~= Seq::<char>::empty() + trim_start(s));
        Seq::empty()
    }
}

proof fn back_cut(s: Seq<char>) -> (cut: Seq<char>)
    ensures
        s == trim_end(s) + cut,
        forall|i: int| 0 <= i < cut.len() ==> is_white_space(cut[i]),
    decreases s.len(),
{
    if s.len() > 0 && is_white_space(s.last()) {
        let d = s.drop_last();
        let rest = back_cut(d);
        let cut = rest.push(s.last());
        assert(s =~= d.push(s.last()));
        assert((trim_end(d) + rest).push(s.last()) =~= trim_end(d) + cut);
        assert(s =~= trim_end(s) + cut);
        cut
    } else {
        assert(s =~= trim_end(s) + Seq::<char>::empty());
        Seq::empty()
    }
}

/// Whether a text is another one with whitespace `a` in front and `b` behind.
pub open spec fn differs_by_whitespace(
    text: Seq<char>,
    a: Seq<char>,
    inner: Seq<char>,
    b: Seq<char>,
) -> bool {
    &&& text == a + inner + b
    &&& forall|i: int| 0 <= i < a.len() ==> is_white_space(a[i])
    &&& forall|i: int| 0 <= i < b.len() ==> is_white_space(b[i])
}

/// A variable has a value exactly if it is set to something other than whitespace, and the value
/// is what it is set to without the whitespace at both ends.
pub proof fn variables_have_their_trimmed_value(env: Map<Seq<char>, Seq<char>>, key: Seq<char>)
    ensures
        value_of(env, key) is Some <==> env.contains_key(key) && exists|i: int|
            0 <= i < env[key].len() && !is_white_space(#[trigger] env[key][i]),
        value_of(env, key) is Some ==> exists|a: Seq<char>, b: Seq<char>| #[trigger]
            differs_by_whitespace(env[key], a, value_of(env, key)->0, b),
        value_of(env, key) matches Some(v) ==> v.len() > 0 && !is_white_space(v.first())
            && !is_white_space(v.last()),
{
    trimmed_facts(env[key]);
    let cut = trimming_cuts_whitespace_only(env[key]);
    if trimmed(env[key]).len() > 0 {
        let i = cut.0.len() as int;
        assert(env[key][i] == trimmed(env[key]).first());
        assert(differs_by_whitespace(env[key], cut.0, trimmed(env[key]), cut.1));
        if value_of(env, key) is Some {
            assert(differs_by_whitespace(env[key], cut.0, value_of(env, key)->0, cut.1));
        }
    }
}

/// The default stands in for a variable exactly where it has no value, and a limit that is no
/// number counts as none.
pub proof fn defaults_stand_in_for_missing_values(
    env: Map<Seq<char>, Seq<char>>,
    key: Seq<char>,
    default: Seq<char>,
)
    ensures
        value_of(env, key) matches Some(v) ==> value_or(env, key, default) == v,
        value_of(env, key) is None ==> value_or(env, key, default) == default,
        ({
            let limit = value_of(env, "SCANNER_MAX_SCAN_BLOCKS"@);
            &&& limit matches Some(v) ==> (parsed_u64(v) matches Some(n) ==> blocks_of(env) == n)
            &&& limit matches Some(v) ==> (parsed_u64(v) is None ==> blocks_of(env) == 2_000_000)
            &&& limit is None ==> blocks_of(env) == 2_000_000
        }),
{
}

/// One name is that of the test network; every other one stands for the main network.
pub proof fn only_one_name_is_the_test_network(name: Seq<char>)
    ensures
        (network_named(name) == Network::TestNetwork) == (name == "test"@),
        (network_named(name) == Network::MainNetwork) == (name != "test"@),
{
}

/// A missing variable is named by the error.
pub proof fn errors_name_the_variable(key: String)
    ensures
        ConfigError::Missing(key).variable() == key@,
{
}

/// A request presents the text of its header, and nothing without one.
pub proof fn requests_present_their_header(header: &str)
    ensures
        presented_text(Some(header)) == header@,
        presented_text(None).len() == 0,
{
}

/// Errors of the caller and errors of the service have their own status, category and message.
pub proof fn errors_have_their_response(why: Seq<char>)
    ensures
        ScanErrorView::Unauthorized.status() == 401,
        ScanErrorView::BadRequest(why).status() == 400,
        ScanErrorView::Upstream.status() == 502,
        ScanErrorView::Internal.status() == 500,
        ScanErrorView::Unauthorized.code() == "unauthorized"@,
        ScanErrorView::BadRequest(why).code() == "bad_request"@,
        ScanErrorView::Upstream.code() == "upstream_error"@,
        ScanErrorView::Internal.code() == "internal_error"@,
        ScanErrorView::Unauthorized.message() == "unauthorized"@,
        ScanErrorView::BadRequest(why).message() == why,
        ScanErrorView::Upstream.message() == "upstream_error"@,
        ScanErrorView::Internal.message() == "internal_error"@,
        ScanErrorView::Unauthorized.description() == "unauthorized"@,
        ScanErrorView::BadRequest(why).description() == "bad request: "@ + why,
        ScanErrorView::Upstream.description() == "upstream lightwalletd error"@,
        ScanErrorView::Internal.description() == "scan failed"@,
{
}

/// The view of an error is the error.
pub proof fn errors_are_seen_as_they_are(why: String)
    ensures
        ScanError::Unauthorized@ == ScanErrorView::Unauthorized,
        ScanError::BadRequest(why)@ == ScanErrorView::BadRequest(why@),
        ScanError::Upstream@ == ScanErrorView::Upstream,
        ScanError::Internal@ == ScanErrorView::Internal,
{
}

/// Connecting sets up TLS where it is due, opens the connection, and waits longer after each
/// refusal: as many times 400 milliseconds as there were refusals.
pub proof fn connecting_asks_for_one_thing_at_a_time(run: ConnectRunView, n: u64)
    ensures
        run.stage == ConnectStage::Securing ==> run.awaited() == ConnectAction::Secure,
        run.stage == ConnectStage::Opening(n) ==> run.awaited() == ConnectAction::Open,
        run.stage == ConnectStage::Pausing(n) && n < 3 ==> run.awaited() == ConnectAction::Pause(
            (400 * (n + 1)) as u64,
        ),
        run.stage == ConnectStage::Finished ==> run.awaited() == ConnectAction::Nothing,
{
}

/// Connecting is in order while it makes one of its three attempts, and sets up TLS only for a
/// connection that uses it.
pub proof fn connecting_is_in_order(run: ConnectRunView, n: u64)
    ensures
        run.stage == ConnectStage::Securing ==> run.wf() == run.tls,
        run.stage == ConnectStage::Opening(n) ==> run.wf() == (n < 3),
        run.stage == ConnectStage::Pausing(n) ==> run.wf() == (n < 3),
        run.stage == ConnectStage::Finished ==> run.wf(),
{
}

/// A connection that opens is kept, at whichever attempt. A refusal leads to a pause, and a pause
/// to the next attempt as long as there were fewer than three. Everything else is given up.
pub proof fn connections_are_kept_or_tried_again(run: ConnectRunView, n: u64, reply: ConnectReply)
    requires
        n < 3,
    ensures
        ({
            let (stage, open) = run.moved(reply);
            &&& run.after(reply).stage == stage && run.after(reply).tls == run.tls
            &&& open == Some(true) <==> run.stage is Opening && reply == ConnectReply::Opened
            &&& open is Some <==> stage == ConnectStage::Finished
            &&& run.stage == ConnectStage::Securing && reply == ConnectReply::Secured
                ==> stage == ConnectStage::Opening(0)
            &&& run.stage == ConnectStage::Opening(n) && reply == ConnectReply::Refused
                ==> stage == ConnectStage::Pausing(n)
            &&& run.stage == ConnectStage::Pausing(n) && reply == ConnectReply::Paused && n + 1 < 3
                ==> stage == ConnectStage::Opening((n + 1) as u64)
            &&& run.stage == ConnectStage::Pausing(n) && reply == ConnectReply::Paused && n + 1
                == 3 ==> stage == ConnectStage::Finished
        }),
{
}

/// A server that opens at attempt number `n`, counted from 0 and below three, is connected to:
/// the refusals before do not matter.
pub proof fn late_openings_count(run: ConnectRunView, n: nat)
    requires
        run.stage == ConnectStage::Opening(0),
        n < 3,
    ensures
        after_refusals(run, n).awaited() == ConnectAction::Open,
        after_refusals(run, n).moved(ConnectReply::Opened).1 == Some(true),
    decreases n,
{
    attempts_are_bounded(run, n);
}

} // verus!

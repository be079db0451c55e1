//! What each reply leads to in a verification, over the verification before the reply and what
//! comes of it.

use crate::chain::Network;
use crate::encoding::hex_decoded;
use crate::error::{ScanError, ScanErrorView};
use crate::protocol::{ActionView, ReplyView};
use crate::scan::{ScanRunView, ScanStep};
use crate::step_laws::answers;
use crate::verify::{
    fetched, memo_found, verify_reports, Progress, VerifyRunView, VerifyStage, VerifyStep,
};
use vstd::prelude::*;

verus! {

/// A verification starts with a scan for the key, and remembers what to look for.
pub proof fn verifications_start_with_a_scan(
    network: Network,
    ufvk: Seq<char>,
    expected: Seq<char>,
    scan: ScanRunView,
)
    ensures
        ({
            let run = VerifyRunView::started(network, ufvk, expected, scan);
            &&& run.network == network
            &&& run.ufvk == ufvk
            &&& run.expected == expected
            &&& run.scan == scan
            &&& run.stage == VerifyStage::Scanning
            &&& run.spent.len() == 0
            &&& run.awaited() == scan.awaited()
        }),
{
}

/// While the scan lasts, the verification does and takes what the scan does. It goes on with
/// every spend that the scan hands out, over a new connection, and fails as the scan fails.
pub proof fn the_scan_comes_first(run: VerifyRunView, reply: ReplyView)
    requires
        run.stage == VerifyStage::Scanning,
    ensures
        run.awaited() == run.scan.awaited(),
        run.accepts(reply) == run.scan.accepts(reply),
        ({
            let (next, step) = run.advanced(reply);
            &&& next.scan == run.scan.advanced(reply).0
            &&& match run.scan.advanced(reply).1 {
                ScanStep::Continue => step == VerifyStep::Continue && next.stage
                    == VerifyStage::Scanning,
                ScanStep::Done(out) => {
                    &&& step == VerifyStep::Continue
                    &&& next.stage == VerifyStage::Connecting
                    &&& next.awaited() == ActionView::Connect
                    &&& next.spent == out.spent
                },
                ScanStep::Fail(why) => {
                    &&& step == VerifyStep::Fail(why)
                    &&& next.awaited() == ActionView::Nothing
                },
            }
        }),
{
}

/// Once the connection for the transactions is open, the transaction of the first spend is asked
/// for. Only a verification without spends is over then, without a match.
pub proof fn the_first_spend_is_looked_at(run: VerifyRunView)
    requires
        run.stage == VerifyStage::Connecting,
    ensures
        ({
            let (next, step) = run.advanced(ReplyView::Connected);
            &&& run.spent.len() > 0 ==> {
                &&& step == VerifyStep::Continue
                &&& next.stage == VerifyStage::Fetching(0)
                &&& next.spent == run.spent
            }
            &&& run.spent.len() == 0 ==> {
                &&& step == VerifyStep::Done(None)
                &&& next.stage == VerifyStage::Finished
            }
        }),
{
}

/// What is asked for a spend is the transaction whose identifier the spend bears.
pub proof fn spends_are_fetched_by_their_identifier(run: VerifyRunView, i: usize)
    requires
        run.stage == VerifyStage::Fetching(i),
        i < run.spent.len(),
    ensures
        hex_decoded(run.spent[i as int].txid) matches Some(id) ==> run.awaited()
            == ActionView::Transaction(id),
        hex_decoded(run.spent[i as int].txid) is None ==> {
            &&& run.awaited() matches ActionView::Transaction(id)
            &&& id.len() == 0
        },
{
}

/// A transaction that carries the memo ends the verification with its spend. One that does not
/// leads to the next spend, and after the last one to the end without a match.
pub proof fn spends_are_judged_one_by_one(run: VerifyRunView, i: usize, raw: Seq<u8>)
    requires
        run.stage == VerifyStage::Fetching(i),
        i < run.spent.len() <= usize::MAX,
    ensures
        ({
            let (next, step) = run.advanced(ReplyView::Transaction(raw));
            let s = run.spent[i as int];
            if memo_found(run.network, run.ufvk, raw, s.height, run.expected) {
                &&& step matches VerifyStep::Done(Some(m)) && m.txid == s.txid && m.height
                    == s.height
                &&& next.stage == VerifyStage::Finished
            } else if i + 1 < run.spent.len() {
                &&& step == VerifyStep::Continue
                &&& next.stage == VerifyStage::Fetching((i + 1) as usize)
            } else {
                &&& step == VerifyStep::Done(None)
                &&& next.stage == VerifyStage::Finished
            }
        }),
{
}

/// A verdict on the transaction being fetched has the effect of a transaction on which the
/// verdict is right: it ends the verification with the spend, or leads to the next one.
pub proof fn verdicts_count_as_transactions(run: VerifyRunView, i: usize, raw: Seq<u8>)
    requires
        run.stage == VerifyStage::Fetching(i),
        i < run.spent.len() <= usize::MAX,
    ensures
        ({
            let s = run.spent[i as int];
            let carries = memo_found(run.network, run.ufvk, raw, s.height, run.expected);
            &&& run.judged(i, carries) == run.advanced(ReplyView::Transaction(raw))
            &&& run.judged(i, true).1 matches VerifyStep::Done(Some(m)) && m.txid == s.txid
                && m.height == s.height
            &&& run.judged(i, true).0.stage == VerifyStage::Finished
            &&& i + 1 < run.spent.len() ==> run.judged(i, false).1 == VerifyStep::Continue
                && run.judged(i, false).0.stage == VerifyStage::Fetching((i + 1) as usize)
            &&& i + 1 == run.spent.len() ==> run.judged(i, false).1 == VerifyStep::Done(None)
                && run.judged(i, false).0.stage == VerifyStage::Finished
        }),
{
}

/// A verification is in order unless it fetches the transaction of a spend that there is not.
pub proof fn verifications_are_in_order(run: VerifyRunView, i: usize)
    ensures
        run.stage == VerifyStage::Fetching(i) ==> run.wf() == (i < run.spent.len()),
        !(run.stage is Fetching) ==> run.wf(),
{
}

/// No reply changes what a verification looks for, and none after the scan what it looks at.
pub proof fn replies_keep_the_challenge(run: VerifyRunView, reply: ReplyView)
    ensures
        ({
            let next = run.advanced(reply).0;
            &&& next.network == run.network
            &&& next.ufvk == run.ufvk
            &&& next.expected == run.expected
            &&& run.stage != VerifyStage::Scanning ==> next.spent == run.spent && next.scan
                == run.scan
        }),
{
}

/// After the scan every reply can be taken up, a failure of the server ends the verification as
/// such, and a reply to something that was not asked ends it as a fault.
pub proof fn failures_and_stray_replies_end_the_verification(run: VerifyRunView, reply: ReplyView)
    requires
        run.stage != VerifyStage::Scanning,
    ensures
        run.accepts(reply),
        !answers(run.awaited(), reply) ==> {
            let (next, step) = run.advanced(reply);
            &&& next.awaited() == ActionView::Nothing
            &&& step == VerifyStep::Fail(
                if reply is Failed {
                    ScanErrorView::Upstream
                } else {
                    ScanErrorView::Internal
                },
            )
        },
{
}

/// What a verification asks for after the scan.
pub proof fn verifications_ask_for_transactions(run: VerifyRunView)
    ensures
        run.stage == VerifyStage::Connecting ==> run.awaited() == ActionView::Connect,
        run.stage is Fetching ==> run.awaited() is Transaction,
        run.stage == VerifyStage::Finished ==> run.awaited() == ActionView::Nothing,
{
}

/// From the end of the scan on, every spend is looked at before the verification says that there
/// is no match: as long as no transaction carried the memo, the next spend's transaction is asked
/// for, and only after the last one the verification is over.
pub proof fn no_match_means_that_every_spend_was_looked_at(
    run: VerifyRunView,
    raws: Seq<Seq<u8>>,
)
    requires
        run.stage == VerifyStage::Connecting,
        raws.len() <= run.spent.len() <= usize::MAX,
        forall|j: int|
            0 <= j < raws.len() ==> !memo_found(
                run.network,
                run.ufvk,
                #[trigger] raws[j],
                run.spent[j].height,
                run.expected,
            ),
    ensures
        ({
            let opened = run.advanced(ReplyView::Connected).0;
            let now = fetched(opened, raws);
            &&& now.spent == run.spent
            &&& now.network == run.network && now.ufvk == run.ufvk && now.expected == run.expected
            &&& raws.len() < run.spent.len() ==> now.stage == VerifyStage::Fetching(
                raws.len() as usize,
            )
            &&& raws.len() == run.spent.len() ==> now.stage == VerifyStage::Finished
            &&& raws.len() > 0 ==> fetched(opened, raws.drop_last()).advanced(
                ReplyView::Transaction(raws.last()),
            ).1 == if raws.len() < run.spent.len() {
                VerifyStep::Continue
            } else {
                VerifyStep::Done(None)
            }
        }),
    decreases raws.len(),
{
    if raws.len() > 0 {
        let init = raws.drop_last();
        assert forall|j: int| 0 <= j < init.len() implies !memo_found(
            run.network,
            run.ufvk,
            #[trigger] init[j],
            run.spent[j].height,
            run.expected,
        ) by {
            assert(init[j] == raws[j]);
        }
        no_match_means_that_every_spend_was_looked_at(run, init);
        let j = raws.len() - 1;
        assert(raws[j] == raws.last());
        assert(!memo_found(run.network, run.ufvk, raws[j], run.spent[j].height, run.expected));
    }
}

/// The first spend whose transaction carries the memo is the match, whichever it is: the
/// transactions before it were looked at and did not.
pub proof fn the_first_carrier_is_the_match(run: VerifyRunView, raws: Seq<Seq<u8>>)
    requires
        run.stage == VerifyStage::Connecting,
        0 < raws.len() <= run.spent.len() <= usize::MAX,
        forall|j: int|
            0 <= j < raws.len() - 1 ==> !memo_found(
                run.network,
                run.ufvk,
                #[trigger] raws[j],
                run.spent[j].height,
                run.expected,
            ),
        memo_found(
            run.network,
            run.ufvk,
            raws.last(),
            run.spent[raws.len() - 1].height,
            run.expected,
        ),
    ensures
        ({
            let opened = run.advanced(ReplyView::Connected).0;
            let s = run.spent[raws.len() - 1];
            fetched(opened, raws.drop_last()).advanced(ReplyView::Transaction(raws.last())).1
                matches VerifyStep::Done(Some(m)) && m.txid == s.txid && m.height == s.height
        }),
{
    let init = raws.drop_last();
    assert forall|j: int| 0 <= j < init.len() implies !memo_found(
        run.network,
        run.ufvk,
        #[trigger] init[j],
        run.spent[j].height,
        run.expected,
    ) by {
        assert(init[j] == raws[j]);
    }
    no_match_means_that_every_spend_was_looked_at(run, init);
}

/// The result of a step says what the step is: pending while the verification goes on, the match
/// or the lack of one where it is done, the error where it has failed.
pub proof fn verify_results_say_what_happened(r: Result<Progress, ScanError>, step: VerifyStep)
    requires
        verify_reports(r, step),
    ensures
        (step is Continue) == (r matches Ok(Progress::Pending)),
        (step == VerifyStep::Done(None)) == (r matches Ok(Progress::Complete(None))),
        step matches VerifyStep::Done(Some(m)) ==> (r matches Ok(Progress::Complete(Some(s)))
            && s.txid@ == m.txid && s.height == m.height),
        step matches VerifyStep::Fail(why) ==> (r matches Err(e) && e@ == why),
{
}

} // verus!

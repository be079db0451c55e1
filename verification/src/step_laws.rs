//! What each reply leads to in a scan, over the scan before the reply and what comes of it.

use crate::backend::{scan_outcome, ReceivedNote};
use crate::balance::payments_distinct;
use crate::chain::{CompactBlockView, Network, TreeStateView};
use crate::encoding::{decimal, hex_decoded, hex_encoded};
use crate::error::{ScanError, ScanErrorView};
use crate::history::{found_in, history, pays, reveals, spends_of_received_notes_are_found};
use crate::protocol::{ActionView, ReplyView};
use crate::scan::{
    linked, reports, request_refusal, seed, ScanOutput, ScanRunView, ScanStage, ScanStep,
};
use crate::scan_laws::{
    every_found_note_is_received_once, every_known_nullifier_is_spent_once, payments, recognised,
    reports_payment, reports_spend, revelations, Payment, Revelation,
};
use crate::tree::{orchard_nodes, sapling_nodes, tree_size, tree_state_valid};
use vstd::prelude::*;
use zcash_keys::keys::UnifiedFullViewingKey;

verus! {

/// Whether `end` is the last height of a scan: the lower of the tip and the height asked for.
pub open spec fn is_end(run: ScanRunView, tip: u64, end: u64) -> bool {
    &&& end <= tip
    &&& run.to matches Some(t) ==> end <= t
    &&& end == tip || run.to == Some(end)
}

/// A range that is neither empty nor too long is read, all of it: after the tree state before
/// its first block, or at once where there is no block before.
pub proof fn admitted_ranges_are_read(run: ScanRunView, tip: u64, end: u64)
    requires
        run.stage == ScanStage::AwaitingTip,
        is_end(run, tip, end),
        run.from <= end,
        end - run.from + 1 <= run.max_scan_blocks,
    ensures
        ({
            let (next, step) = run.advanced(ReplyView::Height(tip));
            &&& step == ScanStep::Continue
            &&& run.from > 0 ==> next.awaited() == ActionView::TreeState((run.from - 1) as u64)
            &&& run.from > 0 ==> next.stage == ScanStage::AwaitingTree(end)
            &&& run.from == 0 ==> next.awaited() == ActionView::BlockRange(0, end)
            &&& run.from == 0 ==> next.stage == ScanStage::AwaitingStream(end)
        }),
{
}

/// A scan is over at the tip exactly if its range is empty, with nothing found up to its end. It
/// fails there exactly if the range has blocks, and more than allowed.
pub proof fn only_empty_ranges_end_at_the_tip(run: ScanRunView, tip: u64, end: u64)
    requires
        run.stage == ScanStage::AwaitingTip,
        is_end(run, tip, end),
    ensures
        ({
            let (next, step) = run.advanced(ReplyView::Height(tip));
            &&& (step is Done) == (run.from > end)
            &&& step matches ScanStep::Done(out) ==> {
                &&& out.received.len() == 0
                &&& out.spent.len() == 0
                &&& out.scanned_to_height == end
                &&& next.stage == ScanStage::Finished
            }
            &&& (step is Fail) == (run.from <= end && end - run.from + 1 > run.max_scan_blocks)
            &&& step matches ScanStep::Fail(why) ==> {
                &&& why == ScanErrorView::BadRequest(
                    "scan range too large ("@ + decimal((end - run.from) as nat)
                        + " blocks; max "@ + decimal(run.max_scan_blocks as nat)
                        + "). Use a more recent birthday height."@,
                )
                &&& next.stage == ScanStage::Finished
            }
        }),
{
}

/// When the stream ends, the scan hands out what it has found: everything, and nothing else.
pub proof fn everything_found_is_handed_out(run: ScanRunView)
    requires
        run.stage == ScanStage::Streaming,
    ensures
        run.advanced(ReplyView::StreamEnded).0.stage == ScanStage::Finished,
        run.advanced(ReplyView::StreamEnded).1 matches ScanStep::Done(out) && {
            &&& out.received == run.received
            &&& out.spent == run.spent
            &&& out.scanned_to_height == run.scanned_to
        },
{
}

/// A scan hands out something at two points only: where an empty range meets the tip, and where
/// the stream ends.
pub proof fn nothing_is_handed_out_early(run: ScanRunView, reply: ReplyView)
    ensures
        run.advanced(reply).1 is Done ==> {
            ||| run.stage == ScanStage::AwaitingTip && reply is Height
            ||| run.stage == ScanStage::Streaming && reply is StreamEnded
        },
{
}

/// The replies that are due before the blocks lead to the next thing to do.
pub proof fn due_replies_lead_on(run: ScanRunView)
    ensures
        run.stage == ScanStage::Connecting ==> {
            let (next, step) = run.advanced(ReplyView::Connected);
            step == ScanStep::Continue && next.awaited() == ActionView::LatestHeight
        },
        run.stage is AwaitingStream ==> {
            let (next, step) = run.advanced(ReplyView::StreamOpened);
            step == ScanStep::Continue && next.awaited() == ActionView::NextBlock
        },
{
}

/// A tree state that says where the chain stands seeds the scan with just that, and the range is
/// read next. Any other ends the scan as a failure of the server.
pub proof fn tree_states_seed_the_scan(run: ScanRunView, end: u64, t: TreeStateView)
    requires
        run.stage == ScanStage::AwaitingTree(end),
    ensures
        ({
            let (next, step) = run.advanced(ReplyView::TreeState(t));
            &&& tree_state_valid(t) ==> {
                &&& step == ScanStep::Continue
                &&& next.awaited() == ActionView::BlockRange(run.from, end)
                &&& next.prior matches Some(m) && {
                    &&& m.height == t.height
                    &&& hex_decoded(t.hash) == Some(m.hash.reverse())
                    &&& m.sapling_tree_size matches Some(n) && n == tree_size(
                        sapling_nodes(t)->0,
                    ) % 0x1_0000_0000
                    &&& m.orchard_tree_size matches Some(n) && n == tree_size(
                        orchard_nodes(t)->0,
                    ) % 0x1_0000_0000
                }
            }
            &&& !tree_state_valid(t) ==> {
                &&& step == ScanStep::Fail(ScanErrorView::Upstream)
                &&& next.stage == ScanStage::Finished
            }
        }),
{
    if tree_state_valid(t) {
        assert(hex_decoded(t.hash)->0.reverse().reverse() =~= hex_decoded(t.hash)->0);
    }
}

/// The seed of a scan says of the block of a valid tree state what the tree state says: its
/// height, its hash, and the sizes of its trees in 32 bits.
pub proof fn seeds_say_what_tree_states_say(t: TreeStateView)
    requires
        tree_state_valid(t),
    ensures
        seed(t).height == t.height,
        hex_decoded(t.hash) == Some(seed(t).hash.reverse()),
        seed(t).sapling_tree_size matches Some(n) && n == tree_size(sapling_nodes(t)->0)
            % 0x1_0000_0000,
        seed(t).orchard_tree_size matches Some(n) && n == tree_size(orchard_nodes(t)->0)
            % 0x1_0000_0000,
{
    assert(hex_decoded(t.hash)->0.reverse().reverse() =~= hex_decoded(t.hash)->0);
}

/// A block in which trial decryption succeeds is taken up with what was found, and the next one
/// is asked for. One in which it fails ends the scan.
pub proof fn blocks_are_taken_up(run: ScanRunView, block: CompactBlockView)
    requires
        run.stage == ScanStage::Streaming,
    ensures
        ({
            let (next, step) = run.advanced(ReplyView::Block(block));
            match scan_outcome(run.network, run.accounts, block, run.prior) {
                Some(found) => {
                    &&& step == ScanStep::Continue
                    &&& next == run.absorbed(block, found)
                    &&& next.awaited() == ActionView::NextBlock
                },
                None => step == ScanStep::Fail(ScanErrorView::Internal) && next.stage
                    == ScanStage::Finished,
            }
        }),
{
}

/// Whether a reply is of the kind that a scan waits for.
pub open spec fn answers(action: ActionView, reply: ReplyView) -> bool {
    match action {
        ActionView::Connect => reply is Connected,
        ActionView::LatestHeight => reply is Height,
        ActionView::TreeState(_) => reply is TreeState,
        ActionView::BlockRange(_, _) => reply is StreamOpened,
        ActionView::NextBlock => reply is Block || reply is StreamEnded,
        ActionView::Transaction(_) => reply is Transaction,
        ActionView::Nothing => false,
    }
}

/// A failure of the server ends the scan as such, whenever it comes, and a reply to something
/// that was not asked ends it as a fault of the scan.
pub proof fn failures_and_stray_replies_end_the_scan(run: ScanRunView, reply: ReplyView)
    requires
        !answers(run.awaited(), reply),
    ensures
        run.advanced(reply).1 == ScanStep::Fail(
            if reply is Failed {
                ScanErrorView::Upstream
            } else {
                ScanErrorView::Internal
            },
        ),
        run.advanced(reply).0.awaited() == ActionView::Nothing,
{
}

/// No reply changes what the scan is about, and no reply but a block changes what it has found.
pub proof fn replies_keep_the_request(run: ScanRunView, reply: ReplyView)
    ensures
        ({
            let (next, step) = run.advanced(reply);
            &&& next.network == run.network
            &&& next.accounts == run.accounts
            &&& next.from == run.from
            &&& next.to == run.to
            &&& next.max_scan_blocks == run.max_scan_blocks
            &&& !(reply is Block) ==> {
                &&& next.known == run.known
                &&& next.scanned_to == run.scanned_to
                &&& next.counts == run.counts
                &&& step == ScanStep::Continue ==> next.received == run.received && next.spent
                    == run.spent
                &&& !(reply is TreeState) ==> next.prior == run.prior
            }
        }),
{
}

/// What a scan asks for at each stage: the block before the range for the tree state, and the
/// whole range for the blocks.
pub proof fn scans_ask_for_their_range(run: ScanRunView, end: u64)
    ensures
        run.stage == ScanStage::Connecting ==> run.awaited() == ActionView::Connect,
        run.stage == ScanStage::AwaitingTip ==> run.awaited() == ActionView::LatestHeight,
        run.stage == ScanStage::AwaitingTree(end) && run.from > 0 ==> run.awaited()
            == ActionView::TreeState((run.from - 1) as u64),
        run.stage == ScanStage::AwaitingStream(end) ==> run.awaited() == ActionView::BlockRange(
            run.from,
            end,
        ),
        run.stage == ScanStage::Streaming ==> run.awaited() == ActionView::NextBlock,
        run.stage == ScanStage::Finished ==> run.awaited() == ActionView::Nothing,
{
}

/// A scan starts with the key and the range that it was asked for, with nothing found, at the
/// height before its range, by connecting.
pub proof fn scans_start_from_nothing(
    network: Network,
    ufvk: UnifiedFullViewingKey,
    from: u64,
    to: Option<u64>,
    max_scan_blocks: u64,
)
    ensures
        ({
            let run = ScanRunView::started(network, ufvk, from, to, max_scan_blocks);
            &&& run.network == network
            &&& run.accounts.contains_key(0) && run.accounts[0] == ufvk
            &&& forall|account: u32| run.accounts.contains_key(account) ==> account == 0
            &&& run.from == from
            &&& run.to == to
            &&& run.max_scan_blocks == max_scan_blocks
            &&& run.awaited() == ActionView::Connect
            &&& run.prior is None
            &&& run.received.len() == 0
            &&& run.spent.len() == 0
            &&& forall|key: Seq<char>| !run.known.contains_key(key)
            &&& run.scanned_to == if from == 0 {
                0
            } else {
                from - 1
            }
            &&& run.counts.blocks == 0
            &&& run.counts.sapling_outputs == 0
            &&& run.counts.orchard_actions == 0
        }),
{
}

/// The result of a step says what the step is: nothing while the scan goes on, the output where
/// it is done, the error where it has failed.
pub proof fn results_say_what_happened(r: Result<Option<ScanOutput>, ScanError>, step: ScanStep)
    requires
        reports(r, step),
    ensures
        (step is Continue) == (r == Ok::<Option<ScanOutput>, ScanError>(None)),
        step matches ScanStep::Done(out) ==> (r matches Ok(Some(o)) && {
            &&& o.scanned_to_height == out.scanned_to_height
            &&& o.received@.len() == out.received.len()
            &&& o.spent@.len() == out.spent.len()
            &&& forall|i: int|
                0 <= i < out.received.len() ==> #[trigger] o.received@[i]@ == out.received[i]
            &&& forall|i: int| 0 <= i < out.spent.len() ==> #[trigger] o.spent@[i]@ == out.spent[i]
        }),
        step matches ScanStep::Fail(why) ==> (r matches Err(e) && e@ == why),
{
}

/// A range that is asked for is admitted exactly if it does not end before it starts and has no
/// more blocks than allowed; a range up to the tip is admitted for the time being. A refusal
/// says which of the two it is.
pub proof fn requests_are_admitted_by_their_length(from: u64, to: Option<u64>, max: u64)
    ensures
        request_refusal(from, to, max) is None <==> (to matches Some(t) ==> from <= t && t - from
            + 1 <= max),
        request_refusal(from, to, max) matches Some(why) ==> (to matches Some(t) && why == if t
            < from {
            "to_height < from_height"@
        } else {
            "range exceeds max_scan_blocks"@
        }),
{
}

/// The payments of the first `k` blocks of a history, each with the index of its block.
pub open spec fn all_payments(
    runs: Seq<ScanRunView>,
    blocks: Seq<CompactBlockView>,
    k: nat,
) -> Seq<(int, Payment)> {
    Seq::new(
        k,
        |i: int| payments(found_in(runs, blocks, i)).map_values(|p: Payment| (i, p)),
    ).flatten()
}

proof fn one_more_block(runs: Seq<ScanRunView>, blocks: Seq<CompactBlockView>, k: nat)
    requires
        k > 0,
    ensures
        all_payments(runs, blocks, k) == all_payments(runs, blocks, (k - 1) as nat) + payments(
            found_in(runs, blocks, k - 1),
        ).map_values(|p: Payment| (k - 1, p)),
{
    let f = |i: int| payments(found_in(runs, blocks, i)).map_values(|p: Payment| (i, p));
    let before = Seq::new((k - 1) as nat, f);
    assert(Seq::new(k, f) =~= before.push(f(k - 1)));
    before.lemma_flatten_push(f(k - 1));
    assert(f(k - 1) =~= payments(found_in(runs, blocks, k - 1)).map_values(
        |p: Payment| (k - 1, p),
    ));
}

/// Over any number of blocks every note that trial decryption finds is received once, in order,
/// with its value and the block and transaction that it was found in.
pub proof fn received_notes_are_all_payments(
    runs: Seq<ScanRunView>,
    blocks: Seq<CompactBlockView>,
    k: nat,
)
    requires
        history(runs, blocks),
        k <= blocks.len(),
        runs[0].received.len() == 0,
    ensures
        ({
            let received = runs[k as int].received;
            let list = all_payments(runs, blocks, k);
            &&& received.len() == list.len()
            &&& forall|i: int|
                0 <= i < list.len() ==> reports_payment(
                    received[i],
                    blocks[(#[trigger] list[i]).0],
                    list[i].1,
                )
        }),
    decreases k,
{
    let list = all_payments(runs, blocks, k);
    if k > 0 {
        let j = k - 1;
        received_notes_are_all_payments(runs, blocks, j as nat);
        one_more_block(runs, blocks, k);
        assert(linked(runs[j], blocks[j], runs[j + 1]));
        let found = found_in(runs, blocks, j);
        every_found_note_is_received_once(runs[j], blocks[j], found);
        let before = all_payments(runs, blocks, j as nat);
        let received = runs[k as int].received;
        assert forall|i: int| 0 <= i < list.len() implies reports_payment(
            received[i],
            blocks[(#[trigger] list[i]).0],
            list[i].1,
        ) by {
            if i < before.len() {
                assert(list[i] == before[i]);
                assert(received[i] == runs[j].received[i]);
            } else {
                let n = i - before.len();
                assert(list[i] == (j, payments(found)[n]));
                assert(reports_payment(received[i], blocks[j], payments(found)[n]));
            }
        }
    } else {
        assert(list =~= Seq::empty());
    }
}

/// The revelations of known nullifiers in the first `k` blocks of a history, each with the index
/// of its block. A nullifier counts as known from the block on that pays its note.
pub open spec fn all_spends(
    runs: Seq<ScanRunView>,
    blocks: Seq<CompactBlockView>,
    k: nat,
) -> Seq<(int, Revelation)> {
    Seq::new(
        k,
        |i: int|
            recognised(revelations(blocks[i]), runs[i + 1].known).map_values(
                |r: Revelation| (i, r),
            ),
    ).flatten()
}

proof fn one_more_block_spends(runs: Seq<ScanRunView>, blocks: Seq<CompactBlockView>, k: nat)
    requires
        k > 0,
    ensures
        all_spends(runs, blocks, k) == all_spends(runs, blocks, (k - 1) as nat) + recognised(
            revelations(blocks[k - 1]),
            runs[k as int].known,
        ).map_values(|r: Revelation| (k - 1, r)),
{
    let f = |i: int|
        recognised(revelations(blocks[i]), runs[i + 1].known).map_values(|r: Revelation| (i, r));
    let before = Seq::new((k - 1) as nat, f);
    assert(Seq::new(k, f) =~= before.push(f(k - 1)));
    before.lemma_flatten_push(f(k - 1));
    assert(f(k - 1) =~= recognised(revelations(blocks[k - 1]), runs[k as int].known).map_values(
        |r: Revelation| (k - 1, r),
    ));
}

/// Over any number of blocks every revelation of a known nullifier is reported as spent once, in
/// order, with the value known for it and the block and transaction that reveal it.
pub proof fn spent_notes_are_all_spends(
    runs: Seq<ScanRunView>,
    blocks: Seq<CompactBlockView>,
    k: nat,
)
    requires
        history(runs, blocks),
        k <= blocks.len(),
        runs[0].spent.len() == 0,
    ensures
        ({
            let spent = runs[k as int].spent;
            let list = all_spends(runs, blocks, k);
            &&& spent.len() == list.len()
            &&& forall|i: int|
                0 <= i < list.len() ==> reports_spend(
                    spent[i],
                    blocks[(#[trigger] list[i]).0],
                    list[i].1,
                    runs[list[i].0 + 1].known,
                )
        }),
    decreases k,
{
    let list = all_spends(runs, blocks, k);
    if k > 0 {
        let j = k - 1;
        spent_notes_are_all_spends(runs, blocks, j as nat);
        one_more_block_spends(runs, blocks, k);
        assert(linked(runs[j], blocks[j], runs[j + 1]));
        every_known_nullifier_is_spent_once(runs[j], blocks[j], found_in(runs, blocks, j));
        let before = all_spends(runs, blocks, j as nat);
        let new = recognised(revelations(blocks[j]), runs[j + 1].known);
        let spent = runs[k as int].spent;
        assert forall|i: int| 0 <= i < list.len() implies reports_spend(
            spent[i],
            blocks[(#[trigger] list[i]).0],
            list[i].1,
            runs[list[i].0 + 1].known,
        ) by {
            if i < before.len() {
                assert(list[i] == before[i]);
                assert(spent[i] == runs[j].spent[i]);
            } else {
                let n = i - before.len();
                assert(list[i] == (j, new[n]));
                assert(reports_spend(spent[i], blocks[j], new[n], runs[j + 1].known));
            }
        }
    } else {
        assert(list =~= Seq::empty());
    }
}

/// What a scan hands out at the end of the stream reports every spend in its blocks once.
pub proof fn the_output_reports_every_spend_once(
    runs: Seq<ScanRunView>,
    blocks: Seq<CompactBlockView>,
)
    requires
        history(runs, blocks),
        runs.last().stage == ScanStage::Streaming,
        runs[0].spent.len() == 0,
    ensures
        runs.last().advanced(ReplyView::StreamEnded).1 matches ScanStep::Done(out) && {
            let list = all_spends(runs, blocks, blocks.len());
            &&& out.spent.len() == list.len()
            &&& forall|i: int|
                0 <= i < list.len() ==> reports_spend(
                    out.spent[i],
                    blocks[(#[trigger] list[i]).0],
                    list[i].1,
                    runs[list[i].0 + 1].known,
                )
        },
{
    everything_found_is_handed_out(runs.last());
    spent_notes_are_all_spends(runs, blocks, blocks.len());
}

/// What a scan hands out at the end of the stream reports every note found in its blocks once.
pub proof fn the_output_reports_every_note_once(
    runs: Seq<ScanRunView>,
    blocks: Seq<CompactBlockView>,
)
    requires
        history(runs, blocks),
        runs.last().stage == ScanStage::Streaming,
        runs[0].received.len() == 0,
    ensures
        runs.last().advanced(ReplyView::StreamEnded).1 matches ScanStep::Done(out) && {
            let list = all_payments(runs, blocks, blocks.len());
            &&& out.received.len() == list.len()
            &&& forall|i: int|
                0 <= i < list.len() ==> reports_payment(
                    out.received[i],
                    blocks[(#[trigger] list[i]).0],
                    list[i].1,
                )
        },
{
    everything_found_is_handed_out(runs.last());
    received_notes_are_all_payments(runs, blocks, blocks.len());
}

/// A note that was received in one block and is spent in that block or a later one is among the
/// spent notes that are handed out at the end of the stream.
pub proof fn the_output_reports_every_spend(
    runs: Seq<ScanRunView>,
    blocks: Seq<CompactBlockView>,
    a: int,
    t: int,
    pool: Seq<char>,
    note: ReceivedNote,
    b: int,
    u: int,
    spend_pool: Seq<char>,
)
    requires
        history(runs, blocks),
        runs.last().stage == ScanStage::Streaming,
        0 <= a <= b < blocks.len(),
        0 <= t < found_in(runs, blocks, a).transactions.len(),
        pays(found_in(runs, blocks, a).transactions[t], pool, note),
        note.nullifier is Some,
        0 <= u < blocks[b].vtx.len(),
        reveals(blocks[b].vtx[u], spend_pool, note.nullifier->0@),
    ensures
        runs.last().advanced(ReplyView::StreamEnded).1 matches ScanStep::Done(out) && exists|i: int|
            0 <= i < out.spent.len() && {
                let spend = #[trigger] out.spent[i];
                &&& spend.height == blocks[b].height
                &&& spend.time == blocks[b].time
                &&& spend.txid == hex_encoded(blocks[b].vtx[u].txid)
                &&& spend.pool == spend_pool
                &&& payments_distinct(runs, blocks) ==> spend.value_zat == note.value_zat
            },
{
    everything_found_is_handed_out(runs.last());
    spends_of_received_notes_are_found(runs, blocks, a, t, pool, note, b, u, spend_pool);
}

/// A scan of an admitted range that is answered all it asks before the first block stands ready
/// for the blocks with nothing found, after the block before its range, and seeded with what the
/// tree state says of that block.
pub proof fn blocks_find_the_scan_ready(
    network: Network,
    ufvk: UnifiedFullViewingKey,
    from: u64,
    to: Option<u64>,
    max: u64,
    tip: u64,
    end: u64,
    t: TreeStateView,
)
    requires
        is_end(ScanRunView::started(network, ufvk, from, to, max), tip, end),
        0 < from <= end,
        end - from + 1 <= max,
        tree_state_valid(t),
    ensures
        ({
            let run = ScanRunView::started(network, ufvk, from, to, max);
            let a = run.advanced(ReplyView::Connected);
            let b = a.0.advanced(ReplyView::Height(tip));
            let c = b.0.advanced(ReplyView::TreeState(t));
            let d = c.0.advanced(ReplyView::StreamOpened);
            &&& run.awaited() == ActionView::Connect
            &&& a.1 == ScanStep::Continue && a.0.awaited() == ActionView::LatestHeight
            &&& b.1 == ScanStep::Continue && b.0.awaited() == ActionView::TreeState(
                (from - 1) as u64,
            )
            &&& c.1 == ScanStep::Continue && c.0.awaited() == ActionView::BlockRange(from, end)
            &&& d.1 == ScanStep::Continue && d.0.awaited() == ActionView::NextBlock
            &&& d.0.received.len() == 0
            &&& d.0.spent.len() == 0
            &&& forall|key: Seq<char>| !d.0.known.contains_key(key)
            &&& d.0.scanned_to == from - 1
            &&& d.0.network == network
            &&& d.0.accounts.contains_key(0) && d.0.accounts[0] == ufvk
            &&& d.0.prior == Some(seed(t))
        }),
{
}

} // verus!

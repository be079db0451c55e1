//! What holds of a scan as a whole, over any number of blocks.

use crate::backend::{has_tx, scan_outcome, FindingsView, ReceivedNote, WalletTxView};
use crate::balance::{notes_keep_their_value, payments_distinct};
use crate::chain::{
    block_hash, next_height, orchard_action_count, parent_hash, sapling_output_count,
    BlockMetadataView, CompactBlockView, CompactTxView, Network, TreeStateView,
};
use crate::encoding::hex_encoded;
use crate::error::ScanErrorView;
use crate::protocol::ReplyView;
use crate::scan::{
    action_nullifiers, block_known, block_received, block_spent, linked, note_in, notes_known,
    pool_spent, range_refusal, request_refusal, scan_end, seed, total_value, tx_received,
    tx_spent, NoteView, ScanRunView, ScanStage, ScanStep,
};
use crate::tree::{orchard_nodes, sapling_nodes, state_hash, tree_size, tree_state_valid};
use vstd::prelude::*;
use zcash_keys::keys::UnifiedFullViewingKey;

verus! {

/// Whether a scan went through `runs`, one state more than there are blocks, taking up one block
/// after the other.
pub open spec fn history(runs: Seq<ScanRunView>, blocks: Seq<CompactBlockView>) -> bool {
    &&& runs.len() == blocks.len() + 1
    &&& forall|k: int|
        0 <= k < blocks.len() ==> linked(runs[k], #[trigger] blocks[k], runs[k + 1])
}

/// A history without its last block is a history.
proof fn shorter_history(runs: Seq<ScanRunView>, blocks: Seq<CompactBlockView>)
    requires
        history(runs, blocks),
        blocks.len() > 0,
    ensures
        history(runs.drop_last(), blocks.drop_last()),
        linked(runs.drop_last().last(), blocks.last(), runs.last()),
{
    let (r, b) = (runs.drop_last(), blocks.drop_last());
    assert forall|k: int| 0 <= k < b.len() implies linked(r[k], #[trigger] b[k], r[k + 1]) by {
        assert(b[k] == blocks[k]);
    }
    assert(blocks[blocks.len() - 1] == blocks.last());
}

/// The blocks of a scan form a chain: each is one higher than the one before, as far as heights
/// of 32 bits go, and names it as its parent. The first one follows what the scan was seeded
/// with.
pub proof fn blocks_form_a_chain(
    runs: Seq<ScanRunView>,
    blocks: Seq<CompactBlockView>,
    k: int,
)
    requires
        history(runs, blocks),
        0 <= k < blocks.len(),
    ensures
        runs[k + 1].scanned_to == blocks[k].height,
        runs[k + 1].prior matches Some(m) && m.height == blocks[k].height && m.hash
            == block_hash(blocks[k]),
        k > 0 ==> parent_hash(blocks[k]) == block_hash(blocks[k - 1]),
        k > 0 ==> blocks[k].height == next_height(blocks[k - 1].height as u32),
        k == 0 ==> (runs[0].prior matches Some(m) ==> parent_hash(blocks[0]) == m.hash
            && blocks[0].height == next_height(m.height)),
{
    assert(linked(runs[k], blocks[k], runs[k + 1]));
    if k > 0 {
        assert(linked(runs[k - 1], blocks[k - 1], runs[k]));
    }
}

/// The height of the block with index `k` is the height of the first block plus `k`.
pub proof fn heights_count_up(runs: Seq<ScanRunView>, blocks: Seq<CompactBlockView>, k: int)
    requires
        history(runs, blocks),
        0 <= k < blocks.len(),
    ensures
        blocks[k].height == if blocks[0].height + k <= u32::MAX {
            blocks[0].height + k
        } else {
            u32::MAX as int
        },
    decreases k,
{
    blocks_form_a_chain(runs, blocks, k);
    if k > 0 {
        heights_count_up(runs, blocks, k - 1);
        blocks_form_a_chain(runs, blocks, k - 1);
    }
}

/// The same blocks lead from the same state to the same state.
pub proof fn same_blocks_same_result(
    a: Seq<ScanRunView>,
    b: Seq<ScanRunView>,
    blocks: Seq<CompactBlockView>,
)
    requires
        history(a, blocks),
        history(b, blocks),
        a[0] == b[0],
    ensures
        a == b,
    decreases blocks.len(),
{
    if blocks.len() > 0 {
        shorter_history(a, blocks);
        shorter_history(b, blocks);
        same_blocks_same_result(a.drop_last(), b.drop_last(), blocks.drop_last());
    }
    assert(a =~= b) by {
        assert forall|k: int| 0 <= k < a.len() implies a[k] == b[k] by {
            if k < a.len() - 1 {
                assert(a.drop_last()[k] == b.drop_last()[k]);
            } else if blocks.len() > 0 {
                assert(a.drop_last().last() == b.drop_last().last());
            }
        }
    }
}

/// A scan can be cut in two at any block: a history and one that starts where it ends are
/// together a history of all the blocks.
pub proof fn histories_join(
    a: Seq<ScanRunView>,
    b: Seq<ScanRunView>,
    first: Seq<CompactBlockView>,
    second: Seq<CompactBlockView>,
)
    requires
        history(a, first),
        history(b, second),
        a.last() == b[0],
    ensures
        history(a + b.drop_first(), first + second),
        (a + b.drop_first()).last() == b.last(),
{
    let runs = a + b.drop_first();
    let blocks = first + second;
    assert forall|k: int| 0 <= k < blocks.len() implies linked(
        runs[k],
        #[trigger] blocks[k],
        runs[k + 1],
    ) by {
        if k < first.len() {
            assert(linked(a[k], first[k], a[k + 1]));
        } else {
            let j = k - first.len();
            assert(linked(b[j], second[j], b[j + 1]));
            assert(runs[k + 1] == b[j + 1]);
            assert(runs[k] == b[j]);
        }
    }
}

/// What a scan has found stays found: nothing is dropped or reordered, and a nullifier that is
/// known stays known.
pub proof fn findings_only_grow(runs: Seq<ScanRunView>, blocks: Seq<CompactBlockView>)
    requires
        history(runs, blocks),
    ensures
        runs[0].received.is_prefix_of(runs.last().received),
        runs[0].spent.is_prefix_of(runs.last().spent),
        runs[0].known.dom().subset_of(runs.last().known.dom()),
    decreases blocks.len(),
{
    if blocks.len() > 0 {
        shorter_history(runs, blocks);
        findings_only_grow(runs.drop_last(), blocks.drop_last());
        let before = runs.drop_last().last();
        let found = scan_outcome(before.network, before.accounts, blocks.last(), before.prior)->0;
        block_keeps_known(before.known, found.transactions);
    }
}

proof fn notes_keep_known(known: Map<Seq<char>, u64>, notes: Seq<ReceivedNote>)
    ensures
        known.dom().subset_of(notes_known(known, notes).dom()),
    decreases notes.len(),
{
    if notes.len() > 0 {
        notes_keep_known(known, notes.drop_last());
    }
}

proof fn block_keeps_known(known: Map<Seq<char>, u64>, txs: Seq<WalletTxView>)
    ensures
        known.dom().subset_of(block_known(known, txs).dom()),
    decreases txs.len(),
{
    if txs.len() > 0 {
        let before = block_known(known, txs.drop_last());
        block_keeps_known(known, txs.drop_last());
        notes_keep_known(before, txs.last().sapling);
        notes_keep_known(notes_known(before, txs.last().sapling), txs.last().orchard);
    }
}

/// Whether a note says where in `block` it comes from: its height and time are those of the
/// block, its identifier that of a transaction of the block, and its pool one of the two.
pub open spec fn note_of(block: CompactBlockView, note: NoteView) -> bool {
    &&& note.height == block.height
    &&& note.time == block.time
    &&& note.pool == "sapling"@ || note.pool == "orchard"@
    &&& exists|j: int|
        0 <= j < block.vtx.len() && note.txid == hex_encoded((#[trigger] block.vtx[j]).txid)
}

proof fn received_notes_of_block(block: CompactBlockView, txs: Seq<WalletTxView>)
    requires
        forall|k: int| 0 <= k < txs.len() ==> has_tx(block, (#[trigger] txs[k]).txid),
    ensures
        forall|i: int|
            0 <= i < block_received(block, txs).len() ==> note_of(
                block,
                #[trigger] block_received(block, txs)[i],
            ),
    decreases txs.len(),
{
    if txs.len() > 0 {
        let (init, tx) = (txs.drop_last(), txs.last());
        assert forall|k: int| 0 <= k < init.len() implies has_tx(
            block,
            (#[trigger] init[k]).txid,
        ) by {
            assert(init[k] == txs[k]);
        }
        received_notes_of_block(block, init);
        assert(has_tx(block, txs[txs.len() - 1].txid));
        let start = block_received(block, init);
        let all = block_received(block, txs);
        assert(all == start + tx_received(block, tx));
        assert forall|i: int| 0 <= i < all.len() implies note_of(block, #[trigger] all[i]) by {
            if i < start.len() {
                assert(all[i] == start[i]);
            } else {
                assert(all[i].txid == hex_encoded(tx.txid));
            }
        }
    }
}

/// Whether `note` is the spend of the known note with the given nullifier.
spec fn spends(
    known: Map<Seq<char>, u64>,
    block: CompactBlockView,
    txid: Seq<u8>,
    nullifier: Seq<u8>,
    pool: Seq<char>,
    note: NoteView,
) -> bool {
    known.contains_key(hex_encoded(nullifier)) && note == note_in(
        block,
        txid,
        known[hex_encoded(nullifier)],
        pool,
    )
}

proof fn pool_spent_note(
    known: Map<Seq<char>, u64>,
    block: CompactBlockView,
    txid: Seq<u8>,
    nullifiers: Seq<Seq<u8>>,
    pool: Seq<char>,
    i: int,
) -> (n: int)
    requires
        0 <= i < pool_spent(known, block, txid, nullifiers, pool).len(),
    ensures
        0 <= n < nullifiers.len(),
        spends(
            known,
            block,
            txid,
            nullifiers[n],
            pool,
            pool_spent(known, block, txid, nullifiers, pool)[i],
        ),
    decreases nullifiers.len(),
{
    let init = nullifiers.drop_last();
    let start = pool_spent(known, block, txid, init, pool);
    if i < start.len() {
        pool_spent_note(known, block, txid, init, pool, i)
    } else {
        nullifiers.len() - 1
    }
}

/// Whether transaction `tx` reveals a nullifier in a pool.
pub open spec fn reveals(tx: CompactTxView, pool: Seq<char>, nullifier: Seq<u8>) -> bool {
    ||| pool == "sapling"@ && tx.spends.contains(nullifier)
    ||| pool == "orchard"@ && action_nullifiers(tx).contains(nullifier)
}

/// Whether a spend that was reported in `block` is the spend of a known note: a transaction of
/// the block reveals the note's nullifier, and the value is that of the note.
pub open spec fn spend_of(
    known: Map<Seq<char>, u64>,
    block: CompactBlockView,
    tx: CompactTxView,
    nullifier: Seq<u8>,
    note: NoteView,
) -> bool {
    &&& known.contains_key(hex_encoded(nullifier))
    &&& reveals(tx, note.pool, nullifier)
    &&& note == note_in(block, tx.txid, known[hex_encoded(nullifier)], note.pool)
}

/// Every spend that is reported for a block is the spend of a known note by a transaction of
/// the block.
pub proof fn reported_spends_are_spends(
    known: Map<Seq<char>, u64>,
    block: CompactBlockView,
    vtx: Seq<CompactTxView>,
    i: int,
)
    requires
        0 <= i < block_spent(known, block, vtx).len(),
    ensures
        exists|t: int, nullifier: Seq<u8>|
            0 <= t < vtx.len() && #[trigger] spend_of(
                known,
                block,
                vtx[t],
                nullifier,
                block_spent(known, block, vtx)[i],
            ),
    decreases vtx.len(),
{
    let (init, tx) = (vtx.drop_last(), vtx.last());
    let start = block_spent(known, block, init);
    let all = block_spent(known, block, vtx);
    assert(all == start + tx_spent(known, block, tx));
    if i < start.len() {
        reported_spends_are_spends(known, block, init, i);
        let (t, nullifier) = choose|t: int, nullifier: Seq<u8>|
            0 <= t < init.len() && #[trigger] spend_of(
                known,
                block,
                init[t],
                nullifier,
                start[i],
            );
        assert(init[t] == vtx[t]);
        assert(spend_of(known, block, vtx[t], nullifier, all[i]));
    } else {
        let sapling = pool_spent(known, block, tx.txid, tx.spends, "sapling"@);
        let acts = action_nullifiers(tx);
        let orchard = pool_spent(known, block, tx.txid, acts, "orchard"@);
        let j = i - start.len();
        assert(all[i] == tx_spent(known, block, tx)[j]);
        let t = vtx.len() - 1;
        assert(vtx[t] == tx);
        if j < sapling.len() {
            assert(all[i] == sapling[j]);
            let n = pool_spent_note(known, block, tx.txid, tx.spends, "sapling"@, j);
            assert(spend_of(known, block, vtx[t], tx.spends[n], all[i]));
        } else {
            assert(all[i] == orchard[j - sapling.len()]);
            let n = pool_spent_note(
                known,
                block,
                tx.txid,
                acts,
                "orchard"@,
                j - sapling.len(),
            );
            assert(spend_of(known, block, vtx[t], acts[n], all[i]));
        }
    }
}

proof fn pool_reports_spend(
    known: Map<Seq<char>, u64>,
    block: CompactBlockView,
    txid: Seq<u8>,
    nullifiers: Seq<Seq<u8>>,
    pool: Seq<char>,
    n: int,
)
    requires
        0 <= n < nullifiers.len(),
        known.contains_key(hex_encoded(nullifiers[n])),
    ensures
        pool_spent(known, block, txid, nullifiers, pool).contains(
            note_in(block, txid, known[hex_encoded(nullifiers[n])], pool),
        ),
    decreases nullifiers.len(),
{
    let init = nullifiers.drop_last();
    let start = pool_spent(known, block, txid, init, pool);
    let all = pool_spent(known, block, txid, nullifiers, pool);
    let note = note_in(block, txid, known[hex_encoded(nullifiers[n])], pool);
    if n < init.len() {
        pool_reports_spend(known, block, txid, init, pool, n);
        let i = choose|i: int| 0 <= i < start.len() && start[i] == note;
        assert(all[i] == note);
    } else {
        assert(all.last() == note);
    }
}

/// No spend of a known note is missed: where a transaction of the block reveals the nullifier
/// of a known note, the spend is reported.
pub proof fn known_spends_are_reported(
    known: Map<Seq<char>, u64>,
    block: CompactBlockView,
    vtx: Seq<CompactTxView>,
    t: int,
    pool: Seq<char>,
    nullifier: Seq<u8>,
)
    requires
        0 <= t < vtx.len(),
        known.contains_key(hex_encoded(nullifier)),
        reveals(vtx[t], pool, nullifier),
    ensures
        block_spent(known, block, vtx).contains(
            note_in(block, vtx[t].txid, known[hex_encoded(nullifier)], pool),
        ),
    decreases vtx.len(),
{
    let (init, tx) = (vtx.drop_last(), vtx.last());
    let start = block_spent(known, block, init);
    let all = block_spent(known, block, vtx);
    let note = note_in(block, vtx[t].txid, known[hex_encoded(nullifier)], pool);
    assert(all == start + tx_spent(known, block, tx));
    if t < init.len() {
        known_spends_are_reported(known, block, init, t, pool, nullifier);
        let i = choose|i: int| 0 <= i < start.len() && start[i] == note;
        assert(all[i] == note);
    } else {
        let sapling = pool_spent(known, block, tx.txid, tx.spends, "sapling"@);
        let acts = action_nullifiers(tx);
        let orchard = pool_spent(known, block, tx.txid, acts, "orchard"@);
        if pool == "sapling"@ && tx.spends.contains(nullifier) {
            let n = choose|n: int| 0 <= n < tx.spends.len() && tx.spends[n] == nullifier;
            pool_reports_spend(known, block, tx.txid, tx.spends, pool, n);
            let i = choose|i: int| 0 <= i < sapling.len() && sapling[i] == note;
            assert(all[start.len() + i] == note);
        } else {
            let n = choose|n: int| 0 <= n < acts.len() && acts[n] == nullifier;
            pool_reports_spend(known, block, tx.txid, acts, pool, n);
            let i = choose|i: int| 0 <= i < orchard.len() && orchard[i] == note;
            assert(all[start.len() + sapling.len() + i] == note);
        }
    }
}

/// Whether a transaction paid a note to the wallet in a pool.
pub open spec fn pays(tx: WalletTxView, pool: Seq<char>, note: ReceivedNote) -> bool {
    ||| pool == "sapling"@ && tx.sapling.contains(note)
    ||| pool == "orchard"@ && tx.orchard.contains(note)
}

proof fn note_is_known(known: Map<Seq<char>, u64>, notes: Seq<ReceivedNote>, n: int)
    requires
        0 <= n < notes.len(),
        notes[n].nullifier is Some,
    ensures
        notes_known(known, notes).contains_key(hex_encoded(notes[n].nullifier->0@)),
    decreases notes.len(),
{
    if n < notes.len() - 1 {
        note_is_known(known, notes.drop_last(), n);
    }
}

/// Every note that trial decryption finds is reported as received, and recognised from then on
/// by its nullifier.
pub proof fn payments_are_reported(
    known: Map<Seq<char>, u64>,
    block: CompactBlockView,
    txs: Seq<WalletTxView>,
    t: int,
    pool: Seq<char>,
    note: ReceivedNote,
)
    requires
        0 <= t < txs.len(),
        pays(txs[t], pool, note),
    ensures
        block_received(block, txs).contains(note_in(block, txs[t].txid, note.value_zat, pool)),
        note.nullifier matches Some(nf) ==> block_known(known, txs).contains_key(
            hex_encoded(nf@),
        ),
    decreases txs.len(),
{
    let (init, tx) = (txs.drop_last(), txs.last());
    let start = block_received(block, init);
    let all = block_received(block, txs);
    let known_before = block_known(known, init);
    let entry = note_in(block, txs[t].txid, note.value_zat, pool);
    assert(all == start + tx_received(block, tx));
    notes_keep_known(known_before, tx.sapling);
    notes_keep_known(notes_known(known_before, tx.sapling), tx.orchard);
    if t < init.len() {
        payments_are_reported(known, block, init, t, pool, note);
        let i = choose|i: int| 0 <= i < start.len() && start[i] == entry;
        assert(all[i] == entry);
    } else if pool == "sapling"@ && tx.sapling.contains(note) {
        let n = choose|n: int| 0 <= n < tx.sapling.len() && tx.sapling[n] == note;
        assert(all[start.len() + n] == entry);
        if note.nullifier is Some {
            note_is_known(known_before, tx.sapling, n);
        }
    } else {
        let n = choose|n: int| 0 <= n < tx.orchard.len() && tx.orchard[n] == note;
        assert(all[start.len() + tx.sapling.len() + n] == entry);
        if note.nullifier is Some {
            note_is_known(notes_known(known_before, tx.sapling), tx.orchard, n);
        }
    }
}

/// What trial decryption found in the block with index `k` of a history.
pub open spec fn found_in(
    runs: Seq<ScanRunView>,
    blocks: Seq<CompactBlockView>,
    k: int,
) -> FindingsView {
    scan_outcome(runs[k].network, runs[k].accounts, blocks[k], runs[k].prior)->0
}

/// The part of a history after its first `k` blocks is a history.
proof fn later_history(runs: Seq<ScanRunView>, blocks: Seq<CompactBlockView>, k: int)
    requires
        history(runs, blocks),
        0 <= k <= blocks.len(),
    ensures
        history(runs.skip(k), blocks.skip(k)),
        runs.skip(k)[0] == runs[k],
        runs.skip(k).last() == runs.last(),
{
    let (r, b) = (runs.skip(k), blocks.skip(k));
    assert forall|i: int| 0 <= i < b.len() implies linked(r[i], #[trigger] b[i], r[i + 1]) by {
        assert(b[i] == blocks[k + i]);
    }
}

/// The part of a history before the block of index `k` is a history.
proof fn earlier_history(runs: Seq<ScanRunView>, blocks: Seq<CompactBlockView>, k: int)
    requires
        history(runs, blocks),
        0 <= k <= blocks.len(),
    ensures
        history(runs.take(k + 1), blocks.take(k)),
        runs.take(k + 1)[0] == runs[0],
        runs.take(k + 1).last() == runs[k],
{
    let (r, b) = (runs.take(k + 1), blocks.take(k));
    assert forall|i: int| 0 <= i < b.len() implies linked(r[i], #[trigger] b[i], r[i + 1]) by {
        assert(b[i] == blocks[i]);
    }
}

/// A note that the wallet received in one block and spends in that block or a later one is
/// reported as spent, with the place of the spend, and with the value of the note unless another
/// note has the same nullifier.
pub proof fn spends_of_received_notes_are_found(
    runs: Seq<ScanRunView>,
    blocks: Seq<CompactBlockView>,
    a: int,
    t: int,
    pool: Seq<char>,
    note: ReceivedNote,
    b: int,
    u: int,
    spend_pool: Seq<char>,
)
    requires
        history(runs, blocks),
        0 <= a <= b < blocks.len(),
        0 <= t < found_in(runs, blocks, a).transactions.len(),
        pays(found_in(runs, blocks, a).transactions[t], pool, note),
        note.nullifier is Some,
        0 <= u < blocks[b].vtx.len(),
        reveals(blocks[b].vtx[u], spend_pool, note.nullifier->0@),
    ensures
        exists|i: int|
            0 <= i < runs.last().spent.len() && {
                let spend = #[trigger] runs.last().spent[i];
                &&& spend.height == blocks[b].height
                &&& spend.time == blocks[b].time
                &&& spend.txid == hex_encoded(blocks[b].vtx[u].txid)
                &&& spend.pool == spend_pool
                &&& payments_distinct(runs, blocks) ==> spend.value_zat == note.value_zat
            },
{
    let nf = note.nullifier->0@;
    let key = hex_encoded(nf);
    let block = blocks[b];
    assert(linked(runs[a], blocks[a], runs[a + 1]));
    payments_are_reported(
        runs[a].known,
        blocks[a],
        found_in(runs, blocks, a).transactions,
        t,
        pool,
        note,
    );
    earlier_history(runs, blocks, b + 1);
    later_history(runs.take(b + 2), blocks.take(b + 1), a + 1);
    findings_only_grow(runs.take(b + 2).skip(a + 1), blocks.take(b + 1).skip(a + 1));
    assert(runs.take(b + 2)[a + 1] == runs[a + 1]);
    let known = runs[b + 1].known;
    assert(known.contains_key(key));
    assert(linked(runs[b], block, runs[b + 1]));
    known_spends_are_reported(known, block, block.vtx, u, spend_pool, nf);
    if payments_distinct(runs, blocks) {
        notes_keep_their_value(runs, blocks, a, t, pool, note, b + 1);
    }
    let spend = note_in(block, block.vtx[u].txid, known[key], spend_pool);
    let new = block_spent(known, block, block.vtx);
    let j = choose|j: int| 0 <= j < new.len() && new[j] == spend;
    let i = runs[b].spent.len() + j;
    assert(runs[b + 1].spent[i] == spend);
    later_history(runs, blocks, b + 1);
    findings_only_grow(runs.skip(b + 1), blocks.skip(b + 1));
    assert(runs.last().spent[i] == spend);
}

/// Every note that a history added, received or spent, says which of its blocks it comes from.
pub proof fn notes_have_an_origin(runs: Seq<ScanRunView>, blocks: Seq<CompactBlockView>)
    requires
        history(runs, blocks),
    ensures
        forall|i: int|
            runs[0].received.len() <= i < runs.last().received.len() ==> exists|k: int|
                0 <= k < blocks.len() && note_of(
                    #[trigger] blocks[k],
                    #[trigger] runs.last().received[i],
                ),
        forall|i: int|
            runs[0].spent.len() <= i < runs.last().spent.len() ==> exists|k: int|
                0 <= k < blocks.len() && note_of(
                    #[trigger] blocks[k],
                    #[trigger] runs.last().spent[i],
                ),
    decreases blocks.len(),
{
    if blocks.len() > 0 {
        let (init, block) = (blocks.drop_last(), blocks.last());
        shorter_history(runs, blocks);
        notes_have_an_origin(runs.drop_last(), init);
        findings_only_grow(runs.drop_last(), init);
        let before = runs.drop_last().last();
        let after = runs.last();
        let found = scan_outcome(before.network, before.accounts, block, before.prior)->0;
        received_notes_of_block(block, found.transactions);
        let last = blocks.len() - 1;
        assert(blocks[last] == block);
        assert forall|i: int| runs[0].received.len() <= i < after.received.len() implies exists|
            k: int,
        |
            0 <= k < blocks.len() && note_of(
                #[trigger] blocks[k],
                #[trigger] after.received[i],
            ) by {
            if i < before.received.len() {
                assert(after.received[i] == before.received[i]);
                let k = choose|k: int|
                    0 <= k < init.len() && note_of(#[trigger] init[k], before.received[i]);
                assert(blocks[k] == init[k]);
            } else {
                let new = block_received(block, found.transactions);
                assert(after.received[i] == new[i - before.received.len()]);
                assert(note_of(blocks[last], after.received[i]));
            }
        }
        assert forall|i: int| runs[0].spent.len() <= i < after.spent.len() implies exists|k: int|
            0 <= k < blocks.len() && note_of(
                #[trigger] blocks[k],
                #[trigger] after.spent[i],
            ) by {
            if i < before.spent.len() {
                assert(after.spent[i] == before.spent[i]);
                let k = choose|k: int|
                    0 <= k < init.len() && note_of(#[trigger] init[k], before.spent[i]);
                assert(blocks[k] == init[k]);
            } else {
                let j = i - before.spent.len();
                let new = block_spent(after.known, block, block.vtx);
                assert(after.spent[i] == new[j]);
                reported_spends_are_spends(after.known, block, block.vtx, j);
                let (t, nullifier) = choose|t: int, nullifier: Seq<u8>|
                    0 <= t < block.vtx.len() && #[trigger] spend_of(
                        after.known,
                        block,
                        block.vtx[t],
                        nullifier,
                        new[j],
                    );
                assert(new[j].txid == hex_encoded(block.vtx[t].txid));
                assert(note_of(blocks[last], after.spent[i]));
            }
        }
    }
}

/// Whether one of the notes has the given value.
pub open spec fn has_value(notes: Seq<NoteView>, value_zat: u64) -> bool {
    exists|i: int| 0 <= i < notes.len() && (#[trigger] notes[i]).value_zat == value_zat
}

/// Whether every value that a scan knows or reports as spent is the value of a note that it
/// reports as received.
pub open spec fn backed(run: ScanRunView) -> bool {
    &&& forall|key: Seq<char>| #[trigger]
        run.known.contains_key(key) ==> has_value(run.received, run.known[key])
    &&& forall|i: int|
        0 <= i < run.spent.len() ==> has_value(
            run.received,
            (#[trigger] run.spent[i]).value_zat,
        )
}

proof fn values_of_notes(known: Map<Seq<char>, u64>, notes: Seq<ReceivedNote>, key: Seq<char>)
    requires
        notes_known(known, notes).contains_key(key),
    ensures
        ({
            let value = notes_known(known, notes)[key];
            ||| known.contains_key(key) && known[key] == value
            ||| exists|n: int| 0 <= n < notes.len() && (#[trigger] notes[n]).value_zat == value
        }),
    decreases notes.len(),
{
    if notes.len() > 0 {
        let init = notes.drop_last();
        let value = notes_known(known, notes)[key];
        match notes.last().nullifier {
            Some(nf) if hex_encoded(nf@) == key => {
                assert(notes[notes.len() - 1].value_zat == value);
            },
            _ => {
                values_of_notes(known, init, key);
                if !(known.contains_key(key) && known[key] == value) {
                    let n = choose|n: int|
                        0 <= n < init.len() && (#[trigger] init[n]).value_zat == value;
                    assert(notes[n].value_zat == value);
                }
            },
        }
    }
}

proof fn values_of_block(
    known: Map<Seq<char>, u64>,
    block: CompactBlockView,
    txs: Seq<WalletTxView>,
    key: Seq<char>,
)
    requires
        block_known(known, txs).contains_key(key),
    ensures
        ({
            let value = block_known(known, txs)[key];
            ||| known.contains_key(key) && known[key] == value
            ||| has_value(block_received(block, txs), value)
        }),
    decreases txs.len(),
{
    if txs.len() > 0 {
        let (init, tx) = (txs.drop_last(), txs.last());
        let before = block_known(known, init);
        let middle = notes_known(before, tx.sapling);
        let value = block_known(known, txs)[key];
        let start = block_received(block, init);
        let all = block_received(block, txs);
        assert(all == start + tx_received(block, tx));
        values_of_notes(middle, tx.orchard, key);
        if middle.contains_key(key) && middle[key] == value {
            values_of_notes(before, tx.sapling, key);
            if before.contains_key(key) && before[key] == value {
                values_of_block(known, block, init, key);
                if !(known.contains_key(key) && known[key] == value) {
                    let i = choose|i: int|
                        0 <= i < start.len() && (#[trigger] start[i]).value_zat == value;
                    assert(all[i].value_zat == value);
                }
            } else {
                let n = choose|n: int|
                    0 <= n < tx.sapling.len() && (#[trigger] tx.sapling[n]).value_zat == value;
                assert(all[start.len() + n].value_zat == value);
            }
        } else {
            let n = choose|n: int|
                0 <= n < tx.orchard.len() && (#[trigger] tx.orchard[n]).value_zat == value;
            assert(all[start.len() + tx.sapling.len() + n].value_zat == value);
        }
    }
}

/// Values are only ever reported as spent that were reported as received: taking up a block
/// keeps it so, whatever trial decryption found.
pub proof fn spent_values_were_received(
    run: ScanRunView,
    block: CompactBlockView,
    found: FindingsView,
)
    requires
        backed(run),
    ensures
        backed(run.absorbed(block, found)),
{
    let after = run.absorbed(block, found);
    let new = block_received(block, found.transactions);
    assert(after.received == run.received + new);
    assert forall|value: u64|
        has_value(run.received, value) || has_value(new, value) implies #[trigger]
        has_value(after.received, value) by {
        if has_value(run.received, value) {
            let i = choose|i: int|
                0 <= i < run.received.len() && (#[trigger] run.received[i]).value_zat == value;
            assert(after.received[i].value_zat == value);
        } else {
            let i = choose|i: int| 0 <= i < new.len() && (#[trigger] new[i]).value_zat == value;
            assert(after.received[run.received.len() + i].value_zat == value);
        }
    }
    assert forall|key: Seq<char>| #[trigger] after.known.contains_key(key) implies has_value(
        after.received,
        after.known[key],
    ) by {
        values_of_block(run.known, block, found.transactions, key);
        if run.known.contains_key(key) {
            assert(has_value(run.received, run.known[key]));
        }
    }
    assert forall|i: int| 0 <= i < after.spent.len() implies has_value(
        after.received,
        (#[trigger] after.spent[i]).value_zat,
    ) by {
        if i < run.spent.len() {
            assert(has_value(run.received, run.spent[i].value_zat));
            assert(after.spent[i] == run.spent[i]);
        } else {
            let spends = block_spent(after.known, block, block.vtx);
            let j = i - run.spent.len();
            assert(after.spent[i] == spends[j]);
            reported_spends_are_spends(after.known, block, block.vtx, j);
            let (t, nullifier) = choose|t: int, nullifier: Seq<u8>|
                0 <= t < block.vtx.len() && #[trigger] spend_of(
                    after.known,
                    block,
                    block.vtx[t],
                    nullifier,
                    spends[j],
                );
            assert(after.known.contains_key(hex_encoded(nullifier)));
        }
    }
}

/// A scan starts out with nothing to back.
pub proof fn fresh_scans_are_backed(
    network: Network,
    ufvk: UnifiedFullViewingKey,
    from: u64,
    to: Option<u64>,
    max_scan_blocks: u64,
)
    ensures
        backed(ScanRunView::started(network, ufvk, from, to, max_scan_blocks)),
{
}

/// Every reply keeps values backed, and what a scan hands out at its end reports no value as
/// spent that it does not report as received.
pub proof fn outputs_are_backed(run: ScanRunView, reply: ReplyView)
    requires
        backed(run),
    ensures
        run.advanced(reply).1 is Continue ==> backed(run.advanced(reply).0),
        run.advanced(reply).1 matches ScanStep::Done(out) ==> forall|i: int|
            0 <= i < out.spent.len() ==> has_value(
                out.received,
                (#[trigger] out.spent[i]).value_zat,
            ),
{
    if let ReplyView::Block(block) = reply {
        if let Some(found) = scan_outcome(run.network, run.accounts, block, run.prior) {
            spent_values_were_received(run, block, found);
        }
    }
}

/// How many Sapling outputs the blocks have.
pub open spec fn sapling_outputs_in(blocks: Seq<CompactBlockView>) -> nat
    decreases blocks.len(),
{
    if blocks.len() == 0 {
        0
    } else {
        sapling_outputs_in(blocks.drop_last()) + sapling_output_count(blocks.last().vtx)
    }
}

/// How many Orchard actions the blocks have.
pub open spec fn orchard_actions_in(blocks: Seq<CompactBlockView>) -> nat
    decreases blocks.len(),
{
    if blocks.len() == 0 {
        0
    } else {
        orchard_actions_in(blocks.drop_last()) + orchard_action_count(blocks.last().vtx)
    }
}

/// Where the seed of a scan tells the sizes of the trees, the sizes after the blocks are those of
/// the seed and the outputs of the blocks together.
pub proof fn trees_grow_by_the_outputs(
    runs: Seq<ScanRunView>,
    blocks: Seq<CompactBlockView>,
    at_seed: BlockMetadataView,
)
    requires
        history(runs, blocks),
        runs[0].prior == Some(at_seed),
    ensures
        at_seed.sapling_tree_size matches Some(n) ==> (runs.last().prior matches Some(m)
            && m.sapling_tree_size matches Some(size) && size == n + sapling_outputs_in(blocks)),
        at_seed.orchard_tree_size matches Some(n) ==> (runs.last().prior matches Some(m)
            && m.orchard_tree_size matches Some(size) && size == n + orchard_actions_in(blocks)),
    decreases blocks.len(),
{
    if blocks.len() > 0 {
        shorter_history(runs, blocks);
        trees_grow_by_the_outputs(runs.drop_last(), blocks.drop_last(), at_seed);
    }
}

/// Note positions are right from any height on: the first block follows the block of the tree
/// state that seeded the scan, and the tree sizes after the blocks are those of the tree state,
/// in 32 bits, and the outputs of the blocks together.
pub proof fn positions_follow_the_tree_state(
    state: TreeStateView,
    runs: Seq<ScanRunView>,
    blocks: Seq<CompactBlockView>,
)
    requires
        tree_state_valid(state),
        history(runs, blocks),
        runs[0].prior == Some(seed(state)),
    ensures
        blocks.len() > 0 ==> blocks[0].height == next_height(state.height as u32)
            && state_hash(state.hash) == Some(parent_hash(blocks[0])),
        runs.last().prior matches Some(m) && {
            &&& m.sapling_tree_size matches Some(n) && n == tree_size(sapling_nodes(state)->0)
                % 0x1_0000_0000 + sapling_outputs_in(blocks)
            &&& m.orchard_tree_size matches Some(n) && n == tree_size(orchard_nodes(state)->0)
                % 0x1_0000_0000 + orchard_actions_in(blocks)
        },
{
    trees_grow_by_the_outputs(runs, blocks, seed(state));
    if blocks.len() > 0 {
        blocks_form_a_chain(runs, blocks, 0);
    }
}

/// Without a seed, as in a scan from the first block on, every block but the first is still
/// taken up with tree sizes that are known.
pub proof fn sizes_are_known_after_a_block(runs: Seq<ScanRunView>, blocks: Seq<CompactBlockView>)
    requires
        history(runs, blocks),
        blocks.len() > 0,
    ensures
        runs.last().prior matches Some(m) && m.sapling_tree_size is Some
            && m.orchard_tree_size is Some,
{
    shorter_history(runs, blocks);
}

/// The values of two lists of notes add up.
pub proof fn values_add_up(a: Seq<NoteView>, b: Seq<NoteView>)
    ensures
        total_value(a + b) == total_value(a) + total_value(b),
    decreases b.len(),
{
    if b.len() == 0 {
        assert(a + b =~= a);
    } else {
        assert((a + b).drop_last() =~= a + b.drop_last());
        values_add_up(a, b.drop_last());
    }
}

/// A block adds to the totals what it paid to the wallet and what it spent, and nothing else.
pub proof fn blocks_add_to_the_totals(
    run: ScanRunView,
    block: CompactBlockView,
    found: FindingsView,
)
    ensures
        ({
            let after = run.absorbed(block, found);
            &&& total_value(after.received) == total_value(run.received) + total_value(
                block_received(block, found.transactions),
            )
            &&& total_value(after.spent) == total_value(run.spent) + total_value(
                block_spent(after.known, block, block.vtx),
            )
        }),
{
    let after = run.absorbed(block, found);
    values_add_up(run.received, block_received(block, found.transactions));
    values_add_up(run.spent, block_spent(after.known, block, block.vtx));
}

/// The range that is read never exceeds the tip, the end asked for or the limit, and an empty
/// range is not read at all.
pub proof fn ranges_stay_within_limits(run: ScanRunView, tip: u64)
    ensures
        ({
            let (next, step) = run.at_tip(tip);
            let end = scan_end(run.to, tip);
            step is Continue ==> {
                &&& run.from <= end <= tip
                &&& run.to matches Some(t) ==> end <= t
                &&& end - run.from + 1 <= run.max_scan_blocks
                &&& next.stage == if run.from > 0 {
                    ScanStage::AwaitingTree(end)
                } else {
                    ScanStage::AwaitingStream(end)
                }
            }
        }),
{
}

/// A request whose range was admitted is not refused later on, wherever the tip is.
pub proof fn admitted_ranges_are_not_refused(run: ScanRunView, tip: u64)
    requires
        run.to is Some,
        request_refusal(run.from, run.to, run.max_scan_blocks) is None,
    ensures
        !(run.at_tip(tip).1 is Fail),
{
}

/// Whatever makes a scan fail, the error tells nothing about the key or the notes: it is one
/// that explains nothing, or the refusal of a range, which speaks of the heights alone.
pub proof fn failures_are_coarse(run: ScanRunView, reply: ReplyView)
    ensures
        run.advanced(reply).1 matches ScanStep::Fail(why) ==> {
            ||| why == ScanErrorView::Upstream
            ||| why == ScanErrorView::Internal
            ||| reply matches ReplyView::Height(tip) && why == ScanErrorView::BadRequest(
                range_refusal(
                    (scan_end(run.to, tip) - run.from) as nat,
                    run.max_scan_blocks as nat,
                ),
            )
        },
{
}

} // verus!

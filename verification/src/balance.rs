//! What the payments and spends of a scan have to do with each other: which value a spend has,
//! and that no more is spent than was received.

use crate::backend::{ReceivedNote, WalletTxView};
use crate::chain::{CompactBlockView, CompactTxView};
use crate::encoding::{hex_encoded, hex_is_injective};
use crate::history::{found_in, history, pays, values_add_up};
use crate::scan::{
    action_nullifiers, block_known, block_received, block_spent, linked, notes_known,
    pool_received, pool_spent, total_value, tx_received, tx_spent, ScanRunView,
};
use vstd::prelude::*;

verus! {

/// The nullifiers of some notes, each with the value of its note. A note without a nullifier has
/// no entry.
pub open spec fn entries(notes: Seq<ReceivedNote>) -> Seq<(Seq<u8>, u64)>
    decreases notes.len(),
{
    if notes.len() == 0 {
        Seq::empty()
    } else {
        match notes.last().nullifier {
            Some(nf) => entries(notes.drop_last()).push((nf@, notes.last().value_zat)),
            None => entries(notes.drop_last()),
        }
    }
}

/// The entries of the notes that some transactions paid to the wallet.
pub open spec fn paid(txs: Seq<WalletTxView>) -> Seq<(Seq<u8>, u64)>
    decreases txs.len(),
{
    if txs.len() == 0 {
        Seq::empty()
    } else {
        paid(txs.drop_last()) + entries(txs.last().sapling) + entries(txs.last().orchard)
    }
}

/// The entries of the notes that the first `k` blocks of a history paid to the wallet.
pub open spec fn paid_by(
    runs: Seq<ScanRunView>,
    blocks: Seq<CompactBlockView>,
    k: nat,
) -> Seq<(Seq<u8>, u64)>
    decreases k,
{
    if k == 0 {
        Seq::empty()
    } else {
        paid_by(runs, blocks, (k - 1) as nat) + paid(found_in(runs, blocks, k - 1).transactions)
    }
}

/// The nullifiers that some transactions reveal.
pub open spec fn revealed(vtx: Seq<CompactTxView>) -> Seq<Seq<u8>>
    decreases vtx.len(),
{
    if vtx.len() == 0 {
        Seq::empty()
    } else {
        revealed(vtx.drop_last()) + vtx.last().spends + action_nullifiers(vtx.last())
    }
}

/// The nullifiers that the first `k` blocks reveal.
pub open spec fn revealed_by(blocks: Seq<CompactBlockView>, k: nat) -> Seq<Seq<u8>>
    decreases k,
{
    if k == 0 {
        Seq::empty()
    } else {
        revealed_by(blocks, (k - 1) as nat) + revealed(blocks[k - 1].vtx)
    }
}

/// Whether no two notes that a history paid to the wallet have the same nullifier.
pub open spec fn payments_distinct(runs: Seq<ScanRunView>, blocks: Seq<CompactBlockView>) -> bool {
    let all = paid_by(runs, blocks, blocks.len());
    forall|i: int, j: int| 0 <= i < j < all.len() ==> (#[trigger] all[i]).0 != (#[trigger] all[j]).0
}

/// Whether no nullifier is revealed twice.
pub open spec fn revealed_once(blocks: Seq<CompactBlockView>) -> bool {
    revealed_by(blocks, blocks.len()).no_duplicates()
}

/// The notes known after some entries.
spec fn entered(known: Map<Seq<char>, u64>, list: Seq<(Seq<u8>, u64)>) -> Map<Seq<char>, u64>
    decreases list.len(),
{
    if list.len() == 0 {
        known
    } else {
        entered(known, list.drop_last()).insert(hex_encoded(list.last().0), list.last().1)
    }
}

proof fn entered_joins(
    known: Map<Seq<char>, u64>,
    a: Seq<(Seq<u8>, u64)>,
    b: Seq<(Seq<u8>, u64)>,
)
    ensures
        entered(known, a + b) == entered(entered(known, a), b),
    decreases b.len(),
{
    if b.len() == 0 {
        assert(a + b =~= a);
    } else {
        assert((a + b).drop_last() =~= a + b.drop_last());
        entered_joins(known, a, b.drop_last());
    }
}

proof fn notes_are_entered(known: Map<Seq<char>, u64>, notes: Seq<ReceivedNote>)
    ensures
        notes_known(known, notes) == entered(known, entries(notes)),
    decreases notes.len(),
{
    if notes.len() > 0 {
        notes_are_entered(known, notes.drop_last());
        if let Some(nf) = notes.last().nullifier {
            let before = entries(notes.drop_last());
            assert(entries(notes).drop_last() =~= before);
        }
    }
}

proof fn block_is_entered(known: Map<Seq<char>, u64>, txs: Seq<WalletTxView>)
    ensures
        block_known(known, txs) == entered(known, paid(txs)),
    decreases txs.len(),
{
    if txs.len() > 0 {
        let (init, tx) = (txs.drop_last(), txs.last());
        block_is_entered(known, init);
        notes_are_entered(block_known(known, init), tx.sapling);
        notes_are_entered(notes_known(block_known(known, init), tx.sapling), tx.orchard);
        entered_joins(known, paid(init), entries(tx.sapling));
        entered_joins(known, paid(init) + entries(tx.sapling), entries(tx.orchard));
    }
}

/// What a scan knows is what the blocks have paid.
proof fn history_is_entered(runs: Seq<ScanRunView>, blocks: Seq<CompactBlockView>, k: nat)
    requires
        history(runs, blocks),
        k <= blocks.len(),
    ensures
        runs[k as int].known == entered(runs[0].known, paid_by(runs, blocks, k)),
    decreases k,
{
    if k > 0 {
        let j = k - 1;
        history_is_entered(runs, blocks, j as nat);
        assert(linked(runs[j], blocks[j], runs[j + 1]));
        let new = found_in(runs, blocks, j).transactions;
        block_is_entered(runs[j].known, new);
        entered_joins(runs[0].known, paid_by(runs, blocks, j as nat), paid(new));
    }
}

/// The value known for a nullifier that was paid is that of one of the payments.
proof fn known_values_were_paid(
    known: Map<Seq<char>, u64>,
    list: Seq<(Seq<u8>, u64)>,
    n: int,
) -> (i: int)
    requires
        0 <= n < list.len(),
    ensures
        entered(known, list).contains_key(hex_encoded(list[n].0)),
        0 <= i < list.len(),
        list[i] == (list[n].0, entered(known, list)[hex_encoded(list[n].0)]),
    decreases list.len(),
{
    let (init, last) = (list.drop_last(), list.last());
    hex_is_injective(list[n].0, last.0);
    if list[n].0 == last.0 {
        list.len() - 1
    } else {
        known_values_were_paid(known, init, n)
    }
}

proof fn note_has_entry(notes: Seq<ReceivedNote>, note: ReceivedNote)
    requires
        notes.contains(note),
        note.nullifier is Some,
    ensures
        entries(notes).contains((note.nullifier->0@, note.value_zat)),
    decreases notes.len(),
{
    let entry = (note.nullifier->0@, note.value_zat);
    let n = choose|n: int| 0 <= n < notes.len() && notes[n] == note;
    let init = notes.drop_last();
    if n == notes.len() - 1 {
        assert(entries(notes).last() == entry);
    } else {
        assert(init[n] == note);
        note_has_entry(init, note);
        let i = choose|i: int| 0 <= i < entries(init).len() && entries(init)[i] == entry;
        assert(entries(notes)[i] == entry);
    }
}

proof fn payment_has_entry(txs: Seq<WalletTxView>, t: int, pool: Seq<char>, note: ReceivedNote)
    requires
        0 <= t < txs.len(),
        pays(txs[t], pool, note),
        note.nullifier is Some,
    ensures
        paid(txs).contains((note.nullifier->0@, note.value_zat)),
    decreases txs.len(),
{
    let entry = (note.nullifier->0@, note.value_zat);
    let (init, tx) = (txs.drop_last(), txs.last());
    let (start, sapling, orchard) = (paid(init), entries(tx.sapling), entries(tx.orchard));
    assert(paid(txs) == start + sapling + orchard);
    if t < init.len() {
        payment_has_entry(init, t, pool, note);
        let i = choose|i: int| 0 <= i < start.len() && start[i] == entry;
        assert(paid(txs)[i] == entry);
    } else if tx.sapling.contains(note) {
        note_has_entry(tx.sapling, note);
        let i = choose|i: int| 0 <= i < sapling.len() && sapling[i] == entry;
        assert(paid(txs)[start.len() + i] == entry);
    } else {
        note_has_entry(tx.orchard, note);
        let i = choose|i: int| 0 <= i < orchard.len() && orchard[i] == entry;
        assert(paid(txs)[start.len() + sapling.len() + i] == entry);
    }
}

/// Later blocks only add entries.
proof fn entries_only_grow(runs: Seq<ScanRunView>, blocks: Seq<CompactBlockView>, j: nat, k: nat)
    requires
        j <= k,
    ensures
        paid_by(runs, blocks, j).is_prefix_of(paid_by(runs, blocks, k)),
    decreases k,
{
    if j < k {
        entries_only_grow(runs, blocks, j, (k - 1) as nat);
    }
}

/// As long as no two notes share a nullifier, a note that was received keeps its value: from its
/// block on the scan knows it by its nullifier with that value, which is what a spend reports.
pub proof fn notes_keep_their_value(
    runs: Seq<ScanRunView>,
    blocks: Seq<CompactBlockView>,
    a: int,
    t: int,
    pool: Seq<char>,
    note: ReceivedNote,
    b: int,
)
    requires
        history(runs, blocks),
        payments_distinct(runs, blocks),
        0 <= a < b <= blocks.len(),
        0 <= t < found_in(runs, blocks, a).transactions.len(),
        pays(found_in(runs, blocks, a).transactions[t], pool, note),
        note.nullifier is Some,
    ensures
        runs[b].known.contains_key(hex_encoded(note.nullifier->0@)),
        runs[b].known[hex_encoded(note.nullifier->0@)] == note.value_zat,
{
    let entry = (note.nullifier->0@, note.value_zat);
    let start = paid_by(runs, blocks, a as nat);
    let new = paid(found_in(runs, blocks, a).transactions);
    let list = paid_by(runs, blocks, b as nat);
    let all = paid_by(runs, blocks, blocks.len());
    payment_has_entry(found_in(runs, blocks, a).transactions, t, pool, note);
    let n = choose|n: int| 0 <= n < new.len() && new[n] == entry;
    assert(paid_by(runs, blocks, (a + 1) as nat) == start + new);
    assert((start + new)[start.len() + n] == entry);
    entries_only_grow(runs, blocks, (a + 1) as nat, b as nat);
    entries_only_grow(runs, blocks, b as nat, blocks.len());
    let at = start.len() + n;
    assert(list[at] == entry);
    history_is_entered(runs, blocks, b as nat);
    let i = known_values_were_paid(runs[0].known, list, at);
    assert(all[i] == list[i] && all[at] == list[at]);
    assert(i == at);
}

/// The sum of the values of some entries.
spec fn entries_total(list: Seq<(Seq<u8>, u64)>) -> nat
    decreases list.len(),
{
    if list.len() == 0 {
        0
    } else {
        entries_total(list.drop_last()) + list.last().1 as nat
    }
}

/// The sum of the values of the entries with the given nullifier.
spec fn worth(list: Seq<(Seq<u8>, u64)>, nullifier: Seq<u8>) -> nat
    decreases list.len(),
{
    if list.len() == 0 {
        0
    } else {
        worth(list.drop_last(), nullifier) + if list.last().0 == nullifier {
            list.last().1 as nat
        } else {
            0
        }
    }
}

/// What some nullifiers are worth together.
spec fn claim(list: Seq<(Seq<u8>, u64)>, nullifiers: Seq<Seq<u8>>) -> nat
    decreases nullifiers.len(),
{
    if nullifiers.len() == 0 {
        0
    } else {
        claim(list, nullifiers.drop_last()) + worth(list, nullifiers.last())
    }
}

proof fn entries_add_up(a: Seq<(Seq<u8>, u64)>, b: Seq<(Seq<u8>, u64)>)
    ensures
        entries_total(a + b) == entries_total(a) + entries_total(b),
    decreases b.len(),
{
    if b.len() == 0 {
        assert(a + b =~= a);
    } else {
        assert((a + b).drop_last() =~= a + b.drop_last());
        entries_add_up(a, b.drop_last());
    }
}

proof fn worth_grows(a: Seq<(Seq<u8>, u64)>, b: Seq<(Seq<u8>, u64)>, nullifier: Seq<u8>)
    ensures
        worth(a, nullifier) <= worth(a + b, nullifier),
    decreases b.len(),
{
    if b.len() == 0 {
        assert(a + b =~= a);
    } else {
        assert((a + b).drop_last() =~= a + b.drop_last());
        worth_grows(a, b.drop_last(), nullifier);
    }
}

proof fn claims_grow(
    a: Seq<(Seq<u8>, u64)>,
    b: Seq<(Seq<u8>, u64)>,
    nullifiers: Seq<Seq<u8>>,
)
    ensures
        claim(a, nullifiers) <= claim(a + b, nullifiers),
    decreases nullifiers.len(),
{
    if nullifiers.len() > 0 {
        claims_grow(a, b, nullifiers.drop_last());
        worth_grows(a, b, nullifiers.last());
    }
}

proof fn claims_add_up(list: Seq<(Seq<u8>, u64)>, a: Seq<Seq<u8>>, b: Seq<Seq<u8>>)
    ensures
        claim(list, a + b) == claim(list, a) + claim(list, b),
    decreases b.len(),
{
    if b.len() == 0 {
        assert(a + b =~= a);
    } else {
        assert((a + b).drop_last() =~= a + b.drop_last());
        claims_add_up(list, a, b.drop_last());
    }
}

/// One entry more adds its value to a claim that has its nullifier once, and nothing to another.
proof fn one_more_entry(list: Seq<(Seq<u8>, u64)>, nullifiers: Seq<Seq<u8>>)
    requires
        list.len() > 0,
        nullifiers.no_duplicates(),
    ensures
        claim(list, nullifiers) == claim(list.drop_last(), nullifiers) + if nullifiers.contains(
            list.last().0,
        ) {
            list.last().1 as nat
        } else {
            0
        },
    decreases nullifiers.len(),
{
    if nullifiers.len() > 0 {
        let (init, last) = (nullifiers.drop_last(), nullifiers.last());
        let key = list.last().0;
        one_more_entry(list, init);
        if last == key {
            assert(!init.contains(key));
            assert(nullifiers[nullifiers.len() - 1] == key);
        } else if init.contains(key) {
            let i = choose|i: int| 0 <= i < init.len() && init[i] == key;
            assert(nullifiers[i] == key);
        } else if nullifiers.contains(key) {
            let i = choose|i: int| 0 <= i < nullifiers.len() && nullifiers[i] == key;
            assert(init[i] == key);
        }
    }
}

/// Nullifiers that differ from each other are not worth more than all entries.
proof fn claims_are_covered(list: Seq<(Seq<u8>, u64)>, nullifiers: Seq<Seq<u8>>)
    requires
        nullifiers.no_duplicates(),
    ensures
        claim(list, nullifiers) <= entries_total(list),
    decreases list.len(),
{
    if list.len() == 0 {
        empty_claims(list, nullifiers);
    } else {
        claims_are_covered(list.drop_last(), nullifiers);
        one_more_entry(list, nullifiers);
    }
}

proof fn empty_claims(list: Seq<(Seq<u8>, u64)>, nullifiers: Seq<Seq<u8>>)
    requires
        list.len() == 0,
    ensures
        claim(list, nullifiers) == 0,
    decreases nullifiers.len(),
{
    if nullifiers.len() > 0 {
        empty_claims(list, nullifiers.drop_last());
    }
}

/// A known value is not more than its nullifier is worth.
proof fn known_is_worth(list: Seq<(Seq<u8>, u64)>, nullifier: Seq<u8>)
    ensures
        entered(Map::empty(), list).contains_key(hex_encoded(nullifier)) ==> entered(
            Map::empty(),
            list,
        )[hex_encoded(nullifier)] <= worth(list, nullifier),
    decreases list.len(),
{
    if list.len() > 0 {
        known_is_worth(list.drop_last(), nullifier);
        hex_is_injective(nullifier, list.last().0);
    }
}

proof fn pool_spends_at_most(
    list: Seq<(Seq<u8>, u64)>,
    block: CompactBlockView,
    txid: Seq<u8>,
    nullifiers: Seq<Seq<u8>>,
    pool: Seq<char>,
)
    ensures
        total_value(pool_spent(entered(Map::empty(), list), block, txid, nullifiers, pool))
            <= claim(list, nullifiers),
    decreases nullifiers.len(),
{
    if nullifiers.len() > 0 {
        let known = entered(Map::empty(), list);
        let init = nullifiers.drop_last();
        let before = pool_spent(known, block, txid, init, pool);
        let all = pool_spent(known, block, txid, nullifiers, pool);
        pool_spends_at_most(list, block, txid, init, pool);
        known_is_worth(list, nullifiers.last());
        if known.contains_key(hex_encoded(nullifiers.last())) {
            assert(all.drop_last() =~= before);
        }
    }
}

proof fn block_spends_at_most(
    list: Seq<(Seq<u8>, u64)>,
    block: CompactBlockView,
    vtx: Seq<CompactTxView>,
)
    ensures
        total_value(block_spent(entered(Map::empty(), list), block, vtx)) <= claim(
            list,
            revealed(vtx),
        ),
    decreases vtx.len(),
{
    if vtx.len() > 0 {
        let known = entered(Map::empty(), list);
        let (init, tx) = (vtx.drop_last(), vtx.last());
        let acts = action_nullifiers(tx);
        let sapling = pool_spent(known, block, tx.txid, tx.spends, "sapling"@);
        let orchard = pool_spent(known, block, tx.txid, acts, "orchard"@);
        block_spends_at_most(list, block, init);
        pool_spends_at_most(list, block, tx.txid, tx.spends, "sapling"@);
        pool_spends_at_most(list, block, tx.txid, acts, "orchard"@);
        values_add_up(sapling, orchard);
        values_add_up(block_spent(known, block, init), tx_spent(known, block, tx));
        claims_add_up(list, revealed(init), tx.spends);
        claims_add_up(list, revealed(init) + tx.spends, acts);
    }
}

proof fn pool_receives_at_least(
    block: CompactBlockView,
    txid: Seq<u8>,
    notes: Seq<ReceivedNote>,
    pool: Seq<char>,
)
    ensures
        entries_total(entries(notes)) <= total_value(pool_received(block, txid, notes, pool)),
    decreases notes.len(),
{
    if notes.len() > 0 {
        let init = notes.drop_last();
        let all = pool_received(block, txid, notes, pool);
        pool_receives_at_least(block, txid, init, pool);
        assert(all.drop_last() =~= pool_received(block, txid, init, pool));
        assert(all.last().value_zat == notes.last().value_zat);
        if notes.last().nullifier is Some {
            assert(entries(notes).drop_last() =~= entries(init));
        }
    }
}

proof fn block_receives_at_least(block: CompactBlockView, txs: Seq<WalletTxView>)
    ensures
        entries_total(paid(txs)) <= total_value(block_received(block, txs)),
    decreases txs.len(),
{
    if txs.len() > 0 {
        let (init, tx) = (txs.drop_last(), txs.last());
        let (sapling, orchard) = (entries(tx.sapling), entries(tx.orchard));
        block_receives_at_least(block, init);
        pool_receives_at_least(block, tx.txid, tx.sapling, "sapling"@);
        pool_receives_at_least(block, tx.txid, tx.orchard, "orchard"@);
        entries_add_up(paid(init), sapling);
        entries_add_up(paid(init) + sapling, orchard);
        values_add_up(
            pool_received(block, tx.txid, tx.sapling, "sapling"@),
            pool_received(block, tx.txid, tx.orchard, "orchard"@),
        );
        values_add_up(block_received(block, init), tx_received(block, tx));
    }
}

proof fn balances_hold(runs: Seq<ScanRunView>, blocks: Seq<CompactBlockView>, k: nat)
    requires
        history(runs, blocks),
        k <= blocks.len(),
        runs[0].known == Map::<Seq<char>, u64>::empty(),
        runs[0].spent.len() == 0,
    ensures
        total_value(runs[k as int].spent) <= claim(
            paid_by(runs, blocks, k),
            revealed_by(blocks, k),
        ),
        entries_total(paid_by(runs, blocks, k)) <= total_value(runs[k as int].received),
    decreases k,
{
    if k > 0 {
        let j = k - 1;
        let (run, block) = (runs[j], blocks[j]);
        balances_hold(runs, blocks, j as nat);
        assert(linked(run, block, runs[j + 1]));
        let (start, new) = (
            paid_by(runs, blocks, j as nat),
            paid(found_in(runs, blocks, j).transactions),
        );
        let list = paid_by(runs, blocks, k);
        history_is_entered(runs, blocks, k);
        block_spends_at_most(list, block, block.vtx);
        claims_grow(start, new, revealed_by(blocks, j as nat));
        claims_add_up(list, revealed_by(blocks, j as nat), revealed(block.vtx));
        values_add_up(run.spent, block_spent(runs[j + 1].known, block, block.vtx));
        block_receives_at_least(block, found_in(runs, blocks, j).transactions);
        entries_add_up(start, new);
        values_add_up(
            run.received,
            block_received(block, found_in(runs, blocks, j).transactions),
        );
    }
}

/// No more is spent than was received, as long as no nullifier is revealed twice: a scan that
/// starts with nothing never ends with a negative balance.
pub proof fn spends_are_covered(runs: Seq<ScanRunView>, blocks: Seq<CompactBlockView>)
    requires
        history(runs, blocks),
        runs[0].known == Map::<Seq<char>, u64>::empty(),
        runs[0].spent.len() == 0,
        revealed_once(blocks),
    ensures
        total_value(runs.last().spent) <= total_value(runs.last().received),
{
    balances_hold(runs, blocks, blocks.len());
    claims_are_covered(
        paid_by(runs, blocks, blocks.len()),
        revealed_by(blocks, blocks.len()),
    );
}

} // verus!

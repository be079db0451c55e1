//! What a scan is for, step by step, over what goes in and what comes out.

use crate::backend::{FindingsView, ReceivedNote, WalletTxView};
use crate::chain::{
    orchard_action_count, sapling_output_count, CompactBlockView, CompactOrchardActionView,
    CompactTxView,
};
use crate::encoding::{hex_encoded, hex_is_injective};
use crate::history::values_add_up;
use crate::scan::{
    action_nullifiers, block_known, block_received, block_spent, notes_known, pool_spent,
    total_value, tx_received, tx_spent, NoteView, ScanRunView,
};
use vstd::prelude::*;

verus! {

/// The last element of a list contributes to a flat map after all others.
proof fn flat_map_last<A, B>(s: Seq<A>, f: spec_fn(A) -> Seq<B>)
    requires
        s.len() > 0,
    ensures
        s.flat_map(f) == s.drop_last().flat_map(f) + f(s.last()),
{
    let init = s.drop_last().map_values(f);
    assert(s.map_values(f) =~= init.push(f(s.last())));
    init.lemma_flatten_push(f(s.last()));
}

/// A note together with the transaction and the pool that it was found in.
pub ghost struct Payment {
    pub txid: Seq<u8>,
    pub pool: Seq<char>,
    pub note: ReceivedNote,
}

/// A nullifier together with the transaction and the pool that reveal it.
pub ghost struct Revelation {
    pub txid: Seq<u8>,
    pub pool: Seq<char>,
    pub nullifier: Seq<u8>,
}

/// The payments of a block, one for each note that trial decryption found.
pub open spec fn payments(found: FindingsView) -> Seq<Payment> {
    found.transactions.flat_map(
        |tx: WalletTxView|
            tx.sapling.map_values(
                |note: ReceivedNote| Payment { txid: tx.txid, pool: "sapling"@, note },
            ) + tx.orchard.map_values(
                |note: ReceivedNote| Payment { txid: tx.txid, pool: "orchard"@, note },
            ),
    )
}

/// The nullifiers of a block, one for each Sapling spend and each Orchard action.
pub open spec fn revelations(block: CompactBlockView) -> Seq<Revelation> {
    block.vtx.flat_map(
        |tx: CompactTxView|
            tx.spends.map_values(
                |nullifier: Seq<u8>| Revelation { txid: tx.txid, pool: "sapling"@, nullifier },
            ) + tx.actions.map_values(
                |action: CompactOrchardActionView|
                    Revelation { txid: tx.txid, pool: "orchard"@, nullifier: action.nullifier },
            ),
    )
}

/// The payments of one transaction.
spec fn tx_payments(tx: WalletTxView) -> Seq<Payment> {
    tx.sapling.map_values(|note: ReceivedNote| Payment { txid: tx.txid, pool: "sapling"@, note })
        + tx.orchard.map_values(
        |note: ReceivedNote| Payment { txid: tx.txid, pool: "orchard"@, note },
    )
}

/// The revelations of one transaction.
spec fn tx_revelations(tx: CompactTxView) -> Seq<Revelation> {
    tx.spends.map_values(
        |nullifier: Seq<u8>| Revelation { txid: tx.txid, pool: "sapling"@, nullifier },
    ) + tx.actions.map_values(
        |action: CompactOrchardActionView|
            Revelation { txid: tx.txid, pool: "orchard"@, nullifier: action.nullifier },
    )
}

proof fn payments_by_tx(found: FindingsView)
    ensures
        payments(found) == found.transactions.flat_map(|tx: WalletTxView| tx_payments(tx)),
{
    let f = |tx: WalletTxView|
        tx.sapling.map_values(
            |note: ReceivedNote| Payment { txid: tx.txid, pool: "sapling"@, note },
        ) + tx.orchard.map_values(
            |note: ReceivedNote| Payment { txid: tx.txid, pool: "orchard"@, note },
        );
    let g = |tx: WalletTxView| tx_payments(tx);
    assert(found.transactions.map_values(f) =~= found.transactions.map_values(g));
}

proof fn revelations_by_tx(block: CompactBlockView)
    ensures
        revelations(block) == block.vtx.flat_map(|tx: CompactTxView| tx_revelations(tx)),
{
    let f = |tx: CompactTxView|
        tx.spends.map_values(
            |nullifier: Seq<u8>| Revelation { txid: tx.txid, pool: "sapling"@, nullifier },
        ) + tx.actions.map_values(
            |action: CompactOrchardActionView|
                Revelation { txid: tx.txid, pool: "orchard"@, nullifier: action.nullifier },
        );
    let g = |tx: CompactTxView| tx_revelations(tx);
    assert(block.vtx.map_values(f) =~= block.vtx.map_values(g));
}

/// Whether a note reports a payment in a block.
pub open spec fn reports_payment(
    note: NoteView,
    block: CompactBlockView,
    payment: Payment,
) -> bool {
    &&& note.value_zat == payment.note.value_zat
    &&& note.height == block.height
    &&& note.time == block.time
    &&& note.txid == hex_encoded(payment.txid)
    &&& note.pool == payment.pool
}

proof fn received_by_tx(block: CompactBlockView, txs: Seq<WalletTxView>)
    ensures
        ({
            let list = txs.flat_map(|tx: WalletTxView| tx_payments(tx));
            let notes = block_received(block, txs);
            &&& notes.len() == list.len()
            &&& forall|i: int|
                0 <= i < notes.len() ==> reports_payment(#[trigger] notes[i], block, list[i])
        }),
    decreases txs.len(),
{
    let f = |tx: WalletTxView| tx_payments(tx);
    let list = txs.flat_map(f);
    let notes = block_received(block, txs);
    if txs.len() > 0 {
        let (init, tx) = (txs.drop_last(), txs.last());
        received_by_tx(block, init);
        flat_map_last(txs, f);
        let (start, more) = (block_received(block, init), tx_received(block, tx));
        let (before, last) = (init.flat_map(f), tx_payments(tx));
        assert(list == before + last);
        assert(notes == start + more);
        assert forall|i: int| 0 <= i < notes.len() implies reports_payment(
            #[trigger] notes[i],
            block,
            list[i],
        ) by {
            if i < start.len() {
                assert(notes[i] == start[i] && list[i] == before[i]);
            } else {
                let j = i - start.len();
                assert(notes[i] == more[j] && list[i] == last[j]);
            }
        }
    } else {
        assert(txs.map_values(f).flatten() =~= Seq::empty());
    }
}

/// A block adds to the received notes exactly one note for each note that trial decryption found
/// in it, in order, with the value found and the place where it was found. What was there before
/// stays.
pub proof fn every_found_note_is_received_once(
    run: ScanRunView,
    block: CompactBlockView,
    found: FindingsView,
)
    ensures
        ({
            let after = run.absorbed(block, found).received;
            let list = payments(found);
            let had = run.received.len();
            &&& after.len() == had + list.len()
            &&& forall|i: int| 0 <= i < had ==> #[trigger] after[i] == run.received[i]
            &&& forall|i: int|
                0 <= i < list.len() ==> reports_payment(
                    after[had + i],
                    block,
                    #[trigger] list[i],
                )
        }),
{
    payments_by_tx(found);
    received_by_tx(block, found.transactions);
    let new = block_received(block, found.transactions);
    let after = run.absorbed(block, found).received;
    let list = payments(found);
    assert forall|i: int| 0 <= i < list.len() implies reports_payment(
        after[run.received.len() + i],
        block,
        #[trigger] list[i],
    ) by {
        assert(after[run.received.len() + i] == new[i]);
    }
}

/// A block adds as many notes as its transactions have notes of the wallet in both pools.
pub proof fn received_notes_are_counted(
    run: ScanRunView,
    block: CompactBlockView,
    found: FindingsView,
)
    ensures
        run.absorbed(block, found).received.len() == run.received.len()
            + found.transactions.flat_map(|tx: WalletTxView| tx.sapling + tx.orchard).len(),
{
    payments_by_tx(found);
    every_found_note_is_received_once(run, block, found);
    payments_counted(found.transactions);
}

/// The payments of some transactions are their notes in order.
proof fn payments_counted(txs: Seq<WalletTxView>)
    ensures
        ({
            let list = txs.flat_map(|tx: WalletTxView| tx_payments(tx));
            let notes = txs.flat_map(|tx: WalletTxView| tx.sapling + tx.orchard);
            &&& list.len() == notes.len()
            &&& forall|i: int| 0 <= i < list.len() ==> (#[trigger] list[i]).note == notes[i]
        }),
    decreases txs.len(),
{
    let f = |tx: WalletTxView| tx_payments(tx);
    let g = |tx: WalletTxView| tx.sapling + tx.orchard;
    if txs.len() > 0 {
        payments_counted(txs.drop_last());
        flat_map_last(txs, f);
        flat_map_last(txs, g);
        let (list, before) = (txs.flat_map(f), txs.drop_last().flat_map(f));
        let (notes, start) = (txs.flat_map(g), txs.drop_last().flat_map(g));
        assert forall|i: int| 0 <= i < list.len() implies (#[trigger] list[i]).note
            == notes[i] by {
            if i < before.len() {
                assert(list[i] == before[i] && notes[i] == start[i]);
            } else {
                let j = i - before.len();
                assert(list[i] == tx_payments(txs.last())[j]);
                assert(notes[i] == (txs.last().sapling + txs.last().orchard)[j]);
            }
        }
    } else {
        assert(txs.map_values(f).flatten() =~= Seq::empty());
        assert(txs.map_values(g).flatten() =~= Seq::empty());
    }
}

/// The sum of the values that trial decryption found.
pub open spec fn found_value(found: FindingsView) -> int {
    found.transactions.flat_map(|tx: WalletTxView| tx.sapling + tx.orchard).fold_left(
        0int,
        |sum: int, note: ReceivedNote| sum + note.value_zat,
    )
}

/// What the notes of a scan add up to is the sum of their values.
pub proof fn totals_are_sums(notes: Seq<NoteView>)
    ensures
        total_value(notes) == notes.fold_left(
            0int,
            |sum: int, note: NoteView| sum + note.value_zat,
        ),
    decreases notes.len(),
{
    if notes.len() > 0 {
        totals_are_sums(notes.drop_last());
    }
}

proof fn sums_agree(notes: Seq<NoteView>, list: Seq<ReceivedNote>)
    requires
        notes.len() == list.len(),
        forall|i: int|
            0 <= i < notes.len() ==> (#[trigger] notes[i]).value_zat == list[i].value_zat,
    ensures
        total_value(notes) == list.fold_left(
            0int,
            |sum: int, note: ReceivedNote| sum + note.value_zat,
        ),
    decreases notes.len(),
{
    if notes.len() > 0 {
        let (init, rest) = (notes.drop_last(), list.drop_last());
        assert forall|i: int| 0 <= i < init.len() implies (#[trigger] init[i]).value_zat
            == rest[i].value_zat by {
            assert(init[i] == notes[i]);
        }
        sums_agree(init, rest);
        assert(notes[notes.len() - 1].value_zat == list.last().value_zat);
    }
}

/// A block adds to the received total exactly the values that trial decryption found.
pub proof fn received_values_are_those_found(
    run: ScanRunView,
    block: CompactBlockView,
    found: FindingsView,
)
    ensures
        total_value(run.absorbed(block, found).received) == total_value(run.received) + found_value(
            found,
        ),
{
    let new = block_received(block, found.transactions);
    let notes = found.transactions.flat_map(|tx: WalletTxView| tx.sapling + tx.orchard);
    received_by_tx(block, found.transactions);
    payments_counted(found.transactions);
    let list = found.transactions.flat_map(|tx: WalletTxView| tx_payments(tx));
    assert forall|i: int| 0 <= i < new.len() implies (#[trigger] new[i]).value_zat
        == notes[i].value_zat by {
        assert(reports_payment(new[i], block, list[i]));
        assert(list[i].note == notes[i]);
    }
    sums_agree(new, notes);
    values_add_up(run.received, new);
}

/// Whether a note reports the spend of the known note whose nullifier is revealed in a block.
pub open spec fn reports_spend(
    note: NoteView,
    block: CompactBlockView,
    revelation: Revelation,
    known: Map<Seq<char>, u64>,
) -> bool {
    &&& known.contains_key(hex_encoded(revelation.nullifier))
    &&& note.value_zat == known[hex_encoded(revelation.nullifier)]
    &&& note.height == block.height
    &&& note.time == block.time
    &&& note.txid == hex_encoded(revelation.txid)
    &&& note.pool == revelation.pool
}

/// The revelations of nullifiers of known notes.
pub open spec fn recognised(list: Seq<Revelation>, known: Map<Seq<char>, u64>) -> Seq<Revelation> {
    list.filter(|r: Revelation| known.contains_key(hex_encoded(r.nullifier)))
}

/// Whether some notes report the spends of known notes among some revelations, each once and in
/// order.
spec fn spends_match(
    notes: Seq<NoteView>,
    block: CompactBlockView,
    list: Seq<Revelation>,
    known: Map<Seq<char>, u64>,
) -> bool {
    let spends = recognised(list, known);
    &&& notes.len() == spends.len()
    &&& forall|i: int|
        0 <= i < notes.len() ==> reports_spend(#[trigger] notes[i], block, spends[i], known)
}

proof fn matches_join(
    a: Seq<NoteView>,
    b: Seq<NoteView>,
    block: CompactBlockView,
    x: Seq<Revelation>,
    y: Seq<Revelation>,
    known: Map<Seq<char>, u64>,
)
    requires
        spends_match(a, block, x, known),
        spends_match(b, block, y, known),
    ensures
        spends_match(a + b, block, x + y, known),
{
    let p = |r: Revelation| known.contains_key(hex_encoded(r.nullifier));
    Seq::filter_distributes_over_add(x, y, p);
    let (u, v) = (recognised(x, known), recognised(y, known));
    assert(recognised(x + y, known) == u + v);
    assert forall|i: int| 0 <= i < (a + b).len() implies reports_spend(
        #[trigger] (a + b)[i],
        block,
        (u + v)[i],
        known,
    ) by {
        if i < a.len() {
            assert((a + b)[i] == a[i] && (u + v)[i] == u[i]);
        } else {
            let j = i - a.len();
            assert((a + b)[i] == b[j] && (u + v)[i] == v[j]);
        }
    }
}

proof fn spent_by_pool(
    known: Map<Seq<char>, u64>,
    block: CompactBlockView,
    txid: Seq<u8>,
    nullifiers: Seq<Seq<u8>>,
    pool: Seq<char>,
)
    ensures
        spends_match(
            pool_spent(known, block, txid, nullifiers, pool),
            block,
            nullifiers.map_values(|nullifier: Seq<u8>| Revelation { txid, pool, nullifier }),
            known,
        ),
    decreases nullifiers.len(),
{
    let f = |nullifier: Seq<u8>| Revelation { txid, pool, nullifier };
    let list = nullifiers.map_values(f);
    if nullifiers.len() > 0 {
        let init = nullifiers.drop_last();
        spent_by_pool(known, block, txid, init, pool);
        let before = init.map_values(f);
        let last = f(nullifiers.last());
        assert(list =~= before.push(last));
        before.lemma_filter_push(
            last,
            |r: Revelation| known.contains_key(hex_encoded(r.nullifier)),
        );
        let notes = pool_spent(known, block, txid, nullifiers, pool);
        let start = pool_spent(known, block, txid, init, pool);
        let spends = recognised(list, known);
        assert forall|i: int| 0 <= i < notes.len() implies reports_spend(
            #[trigger] notes[i],
            block,
            spends[i],
            known,
        ) by {
            if i < start.len() {
                assert(notes[i] == start[i]);
                assert(spends[i] == recognised(before, known)[i]);
            }
        }
    }
}

proof fn spent_by_tx(known: Map<Seq<char>, u64>, block: CompactBlockView, vtx: Seq<CompactTxView>)
    ensures
        spends_match(
            block_spent(known, block, vtx),
            block,
            vtx.flat_map(|tx: CompactTxView| tx_revelations(tx)),
            known,
        ),
    decreases vtx.len(),
{
    let f = |tx: CompactTxView| tx_revelations(tx);
    if vtx.len() > 0 {
        let (init, tx) = (vtx.drop_last(), vtx.last());
        spent_by_tx(known, block, init);
        flat_map_last(vtx, f);
        let acts = action_nullifiers(tx);
        spent_by_pool(known, block, tx.txid, tx.spends, "sapling"@);
        spent_by_pool(known, block, tx.txid, acts, "orchard"@);
        let sapling = tx.spends.map_values(
            |nullifier: Seq<u8>| Revelation { txid: tx.txid, pool: "sapling"@, nullifier },
        );
        let orchard = acts.map_values(
            |nullifier: Seq<u8>| Revelation { txid: tx.txid, pool: "orchard"@, nullifier },
        );
        assert(tx_revelations(tx) =~= sapling + orchard);
        matches_join(
            pool_spent(known, block, tx.txid, tx.spends, "sapling"@),
            pool_spent(known, block, tx.txid, acts, "orchard"@),
            block,
            sapling,
            orchard,
            known,
        );
        matches_join(
            block_spent(known, block, init),
            tx_spent(known, block, tx),
            block,
            init.flat_map(f),
            tx_revelations(tx),
            known,
        );
    } else {
        assert(vtx.map_values(f).flatten() =~= Seq::empty());
    }
}

/// A block adds to the spent notes exactly one note for each nullifier in it that is known once
/// the block's own payments are, in order, with the known value and the place of the spend. What
/// was there before stays.
pub proof fn every_known_nullifier_is_spent_once(
    run: ScanRunView,
    block: CompactBlockView,
    found: FindingsView,
)
    ensures
        ({
            let after = run.absorbed(block, found);
            let list = recognised(revelations(block), after.known);
            let had = run.spent.len();
            &&& after.spent.len() == had + list.len()
            &&& forall|i: int| 0 <= i < had ==> #[trigger] after.spent[i] == run.spent[i]
            &&& forall|i: int|
                0 <= i < list.len() ==> reports_spend(
                    after.spent[had + i],
                    block,
                    #[trigger] list[i],
                    after.known,
                )
        }),
{
    let after = run.absorbed(block, found);
    revelations_by_tx(block);
    spent_by_tx(after.known, block, block.vtx);
    let new = block_spent(after.known, block, block.vtx);
    let list = recognised(revelations(block), after.known);
    assert forall|i: int| 0 <= i < list.len() implies reports_spend(
        after.spent[run.spent.len() + i],
        block,
        #[trigger] list[i],
        after.known,
    ) by {
        assert(after.spent[run.spent.len() + i] == new[i]);
        assert(reports_spend(new[i], block, list[i], after.known));
    }
}

proof fn known_joins(known: Map<Seq<char>, u64>, a: Seq<ReceivedNote>, b: Seq<ReceivedNote>)
    ensures
        notes_known(known, a + b) == notes_known(notes_known(known, a), b),
    decreases b.len(),
{
    if b.len() == 0 {
        assert(a + b =~= a);
    } else {
        assert((a + b).drop_last() =~= a + b.drop_last());
        known_joins(known, a, b.drop_last());
    }
}

proof fn known_by_note(known: Map<Seq<char>, u64>, txs: Seq<WalletTxView>)
    ensures
        block_known(known, txs) == notes_known(
            known,
            txs.flat_map(|tx: WalletTxView| tx.sapling + tx.orchard),
        ),
    decreases txs.len(),
{
    let g = |tx: WalletTxView| tx.sapling + tx.orchard;
    if txs.len() > 0 {
        let (init, tx) = (txs.drop_last(), txs.last());
        known_by_note(known, init);
        flat_map_last(txs, g);
        known_joins(known, init.flat_map(g), tx.sapling + tx.orchard);
        known_joins(notes_known(known, init.flat_map(g)), tx.sapling, tx.orchard);
    } else {
        assert(txs.map_values(g).flatten() =~= Seq::empty());
    }
}

/// Whether a note has the given nullifier.
pub open spec fn has_nullifier(note: ReceivedNote, nullifier: Seq<u8>) -> bool {
    note.nullifier matches Some(nf) && nf@ == nullifier
}

proof fn latest_note_is_known(known: Map<Seq<char>, u64>, notes: Seq<ReceivedNote>, i: int)
    requires
        0 <= i < notes.len(),
        notes[i].nullifier is Some,
        forall|j: int|
            i < j < notes.len() ==> !has_nullifier(#[trigger] notes[j], notes[i].nullifier->0@),
    ensures
        notes_known(known, notes).contains_key(hex_encoded(notes[i].nullifier->0@)),
        notes_known(known, notes)[hex_encoded(notes[i].nullifier->0@)] == notes[i].value_zat,
    decreases notes.len(),
{
    if i < notes.len() - 1 {
        let init = notes.drop_last();
        assert forall|j: int| i < j < init.len() implies !has_nullifier(
            #[trigger] init[j],
            init[i].nullifier->0@,
        ) by {
            assert(init[j] == notes[j]);
        }
        latest_note_is_known(known, init, i);
        assert(!has_nullifier(notes[notes.len() - 1], notes[i].nullifier->0@));
        if let Some(nf) = notes.last().nullifier {
            hex_is_injective(nf@, notes[i].nullifier->0@);
        }
    }
}

proof fn other_notes_stay_known(
    known: Map<Seq<char>, u64>,
    notes: Seq<ReceivedNote>,
    nullifier: Seq<u8>,
)
    requires
        forall|j: int| 0 <= j < notes.len() ==> !has_nullifier(#[trigger] notes[j], nullifier),
    ensures
        notes_known(known, notes).contains_key(hex_encoded(nullifier)) == known.contains_key(
            hex_encoded(nullifier),
        ),
        known.contains_key(hex_encoded(nullifier)) ==> notes_known(known, notes)[hex_encoded(
            nullifier,
        )] == known[hex_encoded(nullifier)],
    decreases notes.len(),
{
    if notes.len() > 0 {
        let init = notes.drop_last();
        assert forall|j: int| 0 <= j < init.len() implies !has_nullifier(
            #[trigger] init[j],
            nullifier,
        ) by {
            assert(init[j] == notes[j]);
        }
        other_notes_stay_known(known, init, nullifier);
        assert(!has_nullifier(notes[notes.len() - 1], nullifier));
        if let Some(nf) = notes.last().nullifier {
            hex_is_injective(nf@, nullifier);
        }
    }
}

/// After a block a nullifier is known with the value of the last note in the block that has it.
/// A nullifier that no note of the block has is known as it was before, or not at all.
pub proof fn nullifiers_are_known_by_their_last_note(
    run: ScanRunView,
    block: CompactBlockView,
    found: FindingsView,
    nullifier: Seq<u8>,
)
    ensures
        ({
            let after = run.absorbed(block, found).known;
            let list = payments(found);
            let key = hex_encoded(nullifier);
            &&& forall|i: int|
                0 <= i < list.len() && has_nullifier(#[trigger] list[i].note, nullifier) && (
                forall|j: int|
                    i < j < list.len() ==> !has_nullifier(#[trigger] list[j].note, nullifier))
                    ==> after.contains_key(key) && after[key] == list[i].note.value_zat
            &&& (forall|j: int|
                0 <= j < list.len() ==> !has_nullifier(#[trigger] list[j].note, nullifier)) ==> {
                &&& after.contains_key(key) == run.known.contains_key(key)
                &&& run.known.contains_key(key) ==> after[key] == run.known[key]
            }
        }),
{
    let after = run.absorbed(block, found).known;
    let list = payments(found);
    let key = hex_encoded(nullifier);
    let notes = found.transactions.flat_map(|tx: WalletTxView| tx.sapling + tx.orchard);
    payments_by_tx(found);
    payments_counted(found.transactions);
    known_by_note(run.known, found.transactions);
    assert forall|i: int| 0 <= i < list.len() implies list[i].note == #[trigger] notes[i] by {
        let l = found.transactions.flat_map(|tx: WalletTxView| tx_payments(tx));
        assert(l[i].note == notes[i]);
    }
    assert forall|i: int|
        0 <= i < list.len() && has_nullifier(#[trigger] list[i].note, nullifier) && (forall|j: int|
            i < j < list.len() ==> !has_nullifier(
                #[trigger] list[j].note,
                nullifier,
            )) implies after.contains_key(key) && after[key] == list[i].note.value_zat by {
        assert(list[i].note == notes[i]);
        assert forall|j: int| i < j < notes.len() implies !has_nullifier(
            #[trigger] notes[j],
            nullifier,
        ) by {
            assert(list[j].note == notes[j]);
        }
        latest_note_is_known(run.known, notes, i);
    }
    if forall|j: int| 0 <= j < list.len() ==> !has_nullifier(#[trigger] list[j].note, nullifier) {
        assert forall|j: int| 0 <= j < notes.len() implies !has_nullifier(
            #[trigger] notes[j],
            nullifier,
        ) by {
            assert(list[j].note == notes[j]);
        }
        other_notes_stay_known(run.known, notes, nullifier);
    }
}

/// Taking up a block moves the scan to it and leaves the request as it is. The counts go up by
/// the block and by its outputs and actions, and stay at the largest number of 64 bits.
pub proof fn a_block_moves_the_scan(
    run: ScanRunView,
    block: CompactBlockView,
    found: FindingsView,
)
    ensures
        ({
            let after = run.absorbed(block, found);
            let outputs = block.vtx.flat_map(|tx: CompactTxView| tx.outputs).len();
            let actions = block.vtx.flat_map(|tx: CompactTxView| tx.actions).len();
            let most = u64::MAX as int;
            &&& after.scanned_to == block.height
            &&& after.prior == Some(found.metadata)
            &&& after.stage == run.stage
            &&& after.network == run.network
            &&& after.accounts == run.accounts
            &&& after.from == run.from
            &&& after.to == run.to
            &&& after.max_scan_blocks == run.max_scan_blocks
            &&& after.counts.blocks == if run.counts.blocks + 1 <= most {
                run.counts.blocks + 1
            } else {
                most
            }
            &&& after.counts.sapling_outputs == if run.counts.sapling_outputs + outputs <= most {
                run.counts.sapling_outputs + outputs
            } else {
                most
            }
            &&& after.counts.orchard_actions == if run.counts.orchard_actions + actions <= most {
                run.counts.orchard_actions + actions
            } else {
                most
            }
        }),
{
    counts_are_lengths(block.vtx);
}

/// The outputs and actions of some transactions are counted one by one.
pub proof fn counts_are_lengths(vtx: Seq<CompactTxView>)
    ensures
        sapling_output_count(vtx) == vtx.flat_map(|tx: CompactTxView| tx.outputs).len(),
        orchard_action_count(vtx) == vtx.flat_map(|tx: CompactTxView| tx.actions).len(),
    decreases vtx.len(),
{
    let f = |tx: CompactTxView| tx.outputs;
    let g = |tx: CompactTxView| tx.actions;
    if vtx.len() > 0 {
        counts_are_lengths(vtx.drop_last());
        flat_map_last(vtx, f);
        flat_map_last(vtx, g);
    } else {
        assert(vtx.map_values(f).flatten() =~= Seq::empty());
        assert(vtx.map_values(g).flatten() =~= Seq::empty());
    }
}

} // verus!

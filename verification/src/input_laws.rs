//! What the service takes from its server: that it is seen as it is, and that nothing sound is
//! turned down.

use crate::backend::{header_hashes, Findings};
use crate::chain::{
    block_hash, is_element, le_less, output_parses, parent_hash, prior_view, tx_parses,
    tx_readable, BlockMetadata, CompactBlock, CompactBlockView, CompactTx, CompactTxView,
    TreeState, TreeStateView, PALLAS_BASE_ORDER,
};
use crate::protocol::{Action, ActionView, Reply, ReplyView};
use crate::scan::{tx_writable, Note, ScanRunView, ScanStage};
use crate::scan_laws::counts_are_lengths;
use crate::tree::{node_weight, orchard_nodes, sapling_nodes, tree_size, tree_state_valid};
use vstd::arithmetic::power2::{lemma2_to64, lemma_pow2_unfold, pow2};
use vstd::prelude::*;

verus! {

/// A note is seen with all its parts.
pub proof fn notes_are_seen_as_they_are(note: Note)
    ensures
        note@.value_zat == note.value_zat,
        note@.height == note.height,
        note@.time == note.time,
        note@.txid == note.txid@,
        note@.pool == note.pool@,
{
}

/// A transaction of a block is seen with all its parts, in order.
pub proof fn transactions_are_seen_as_they_are(tx: CompactTx)
    ensures
        tx@.index == tx.index,
        tx@.txid == tx.txid@,
        tx@.spends.len() == tx.spends@.len(),
        tx@.outputs.len() == tx.outputs@.len(),
        tx@.actions.len() == tx.actions@.len(),
        forall|i: int| 0 <= i < tx.spends@.len() ==> #[trigger] tx@.spends[i] == tx.spends@[i]@,
        forall|i: int|
            0 <= i < tx.outputs@.len() ==> {
                let (seen, o) = (#[trigger] tx@.outputs[i], tx.outputs@[i]);
                &&& seen.cmu == o.cmu@
                &&& seen.ephemeral_key == o.ephemeral_key@
                &&& seen.ciphertext == o.ciphertext@
            },
        forall|i: int|
            0 <= i < tx.actions@.len() ==> {
                let (seen, a) = (#[trigger] tx@.actions[i], tx.actions@[i]);
                &&& seen.nullifier == a.nullifier@
                &&& seen.cmx == a.cmx@
                &&& seen.ephemeral_key == a.ephemeral_key@
                &&& seen.ciphertext == a.ciphertext@
            },
{
}

/// A block is seen with all its parts, in order.
pub proof fn blocks_are_seen_as_they_are(block: CompactBlock)
    ensures
        block@.height == block.height,
        block@.hash == block.hash@,
        block@.prev_hash == block.prev_hash@,
        block@.time == block.time,
        block@.header == block.header@,
        block@.chain_metadata == block.chain_metadata,
        block@.vtx.len() == block.vtx@.len(),
        forall|i: int| 0 <= i < block.vtx@.len() ==> #[trigger] block@.vtx[i] == block.vtx@[i]@,
{
}

/// Tree states and what is known of the block before are seen with all their parts.
pub proof fn chain_states_are_seen_as_they_are(state: TreeState, metadata: BlockMetadata)
    ensures
        state@.height == state.height,
        state@.hash == state.hash@,
        state@.sapling_tree == state.sapling_tree@,
        state@.orchard_tree == state.orchard_tree@,
        metadata@.height == metadata.height,
        metadata@.hash == metadata.hash@,
        metadata@.sapling_tree_size == metadata.sapling_tree_size,
        metadata@.orchard_tree_size == metadata.orchard_tree_size,
        prior_view(Some(metadata)) == Some(metadata@),
        prior_view(None) is None,
{
}

/// What trial decryption finds is seen with all its parts, in order.
pub proof fn findings_are_seen_as_they_are(found: Findings)
    ensures
        found@.metadata == found.metadata@,
        found@.transactions.len() == found.transactions@.len(),
        forall|i: int|
            0 <= i < found.transactions@.len() ==> {
                let (seen, tx) = (#[trigger] found@.transactions[i], found.transactions@[i]);
                &&& seen.txid == tx.txid@
                &&& seen.sapling == tx.sapling@
                &&& seen.orchard == tx.orchard@
            },
{
}

/// What is asked of the server is seen as it is asked.
pub proof fn actions_are_seen_as_they_are(a: u64, b: u64, id: Vec<u8>)
    ensures
        Action::Connect@ == ActionView::Connect,
        Action::LatestHeight@ == ActionView::LatestHeight,
        Action::TreeState(a)@ == ActionView::TreeState(a),
        Action::BlockRange(a, b)@ == ActionView::BlockRange(a, b),
        Action::NextBlock@ == ActionView::NextBlock,
        Action::Transaction(id)@ == ActionView::Transaction(id@),
        Action::Nothing@ == ActionView::Nothing,
{
}

/// What the server replies is seen as it replies.
pub proof fn replies_are_seen_as_they_are(
    height: u64,
    state: TreeState,
    block: CompactBlock,
    raw: Vec<u8>,
)
    ensures
        Reply::Connected@ == ReplyView::Connected,
        Reply::Height(height)@ == ReplyView::Height(height),
        Reply::TreeState(state)@ == ReplyView::TreeState(state@),
        Reply::StreamOpened@ == ReplyView::StreamOpened,
        Reply::Block(block)@ == ReplyView::Block(block@),
        Reply::StreamEnded@ == ReplyView::StreamEnded,
        Reply::Transaction(raw)@ == ReplyView::Transaction(raw@),
        Reply::Failed@ == ReplyView::Failed,
{
}

/// A header that parses says what the hashes of a block and its parent are; without one the
/// block does.
pub proof fn headers_take_precedence(block: CompactBlockView)
    ensures
        header_hashes(block.header) matches Some(hashes) ==> block_hash(block) == hashes.0
            && parent_hash(block) == hashes.1,
        header_hashes(block.header) is None ==> block_hash(block) == block.hash && parent_hash(
            block,
        ) == block.prev_hash,
{
}

/// The number that some bytes stand for, the least significant first.
pub open spec fn le_value(bytes: Seq<u8>) -> nat
    decreases bytes.len(),
{
    if bytes.len() == 0 {
        0
    } else {
        bytes.first() as nat + 256 * le_value(bytes.drop_first())
    }
}

proof fn le_values_are_distinct(a: Seq<u8>, b: Seq<u8>)
    requires
        a.len() == b.len(),
        le_value(a) == le_value(b),
    ensures
        a == b,
    decreases a.len(),
{
    if a.len() > 0 {
        let (x, y) = (a.drop_first(), b.drop_first());
        assert(le_value(x) == le_value(y) && a.first() == b.first());
        le_values_are_distinct(x, y);
        assert(a =~= seq![a.first()] + x);
        assert(b =~= seq![b.first()] + y);
    }
    assert(a =~= b);
}

proof fn less_means_smaller(a: Seq<u8>, b: Seq<u8>)
    requires
        a.len() == b.len(),
    ensures
        le_less(a, b) <==> le_value(a) < le_value(b),
    decreases a.len(),
{
    if a.len() > 0 {
        let (x, y) = (a.drop_first(), b.drop_first());
        less_means_smaller(x, y);
        if le_less(a, b) {
            let k = choose|k: int|
                0 <= k < a.len() && #[trigger] a[k] < b[k] && (forall|j: int|
                    k < j < a.len() ==> a[j] == b[j]);
            if k > 0 {
                assert(x[k - 1] < y[k - 1]);
                assert forall|j: int| k - 1 < j < x.len() implies x[j] == y[j] by {
                    assert(a[j + 1] == b[j + 1]);
                }
                assert(le_less(x, y));
            } else {
                assert forall|j: int| 0 <= j < x.len() implies x[j] == y[j] by {
                    assert(a[j + 1] == b[j + 1]);
                }
                assert(x =~= y);
            }
        }
        if le_value(a) < le_value(b) {
            if le_value(x) < le_value(y) {
                let k = choose|k: int|
                    0 <= k < x.len() && #[trigger] x[k] < y[k] && (forall|j: int|
                        k < j < x.len() ==> x[j] == y[j]);
                assert(a[k + 1] < b[k + 1]);
                assert forall|j: int| k + 1 < j < a.len() implies a[j] == b[j] by {
                    assert(x[j - 1] == y[j - 1]);
                }
            } else {
                le_values_are_distinct(x, y);
                assert(a[0] < b[0]);
                assert forall|j: int| 0 < j < a.len() implies a[j] == b[j] by {
                    assert(x[j - 1] == y[j - 1]);
                }
            }
        }
    }
}

/// Bytes encode an element of a field exactly if there are 32 of them and their number is below
/// the order of the field.
pub proof fn elements_are_numbers_below_the_order(bytes: Seq<u8>, order: [u8; 32])
    ensures
        is_element(bytes, order) <==> bytes.len() == 32 && le_value(bytes) < le_value(order@),
{
    if bytes.len() == 32 {
        less_means_smaller(bytes, order@);
    }
}

/// Whether a transaction has the shape that every transaction of the chain has: its position
/// fits in 16 bits, identifiers, nullifiers and commitments have 32 bytes, and the nullifiers of
/// actions are numbers of their field.
pub open spec fn tx_sound(tx: CompactTxView) -> bool {
    &&& tx.index <= 0xffff
    &&& tx.txid.len() == 32
    &&& forall|i: int| 0 <= i < tx.spends.len() ==> (#[trigger] tx.spends[i]).len() == 32
    &&& forall|i: int| 0 <= i < tx.outputs.len() ==> (#[trigger] tx.outputs[i]).cmu.len() == 32
    &&& forall|i: int|
        0 <= i < tx.actions.len() ==> {
            let nullifier = (#[trigger] tx.actions[i]).nullifier;
            nullifier.len() == 32 && le_value(nullifier) < le_value(PALLAS_BASE_ORDER@)
        }
}

/// A block of sound transactions, with hashes of 32 bytes and trees that do not outgrow 32 bits,
/// is never turned down, whatever the scan knows of the block before.
pub proof fn sound_blocks_are_not_turned_down(
    run: ScanRunView,
    block: CompactBlockView,
)
    requires
        block.height <= u32::MAX,
        block_hash(block).len() == 32,
        parent_hash(block).len() == 32,
        forall|i: int| 0 <= i < block.vtx.len() ==> tx_sound(#[trigger] block.vtx[i]),
        ({
            let outputs = block.vtx.flat_map(|tx: CompactTxView| tx.outputs).len();
            let actions = block.vtx.flat_map(|tx: CompactTxView| tx.actions).len();
            match run.prior {
                Some(p) => {
                    &&& p.sapling_tree_size matches Some(n) ==> n + outputs <= u32::MAX
                    &&& p.orchard_tree_size matches Some(n) ==> n + actions <= u32::MAX
                    &&& outputs <= u32::MAX
                    &&& actions <= u32::MAX
                },
                None => outputs <= u32::MAX && actions <= u32::MAX,
            }
        }),
    ensures
        run.accepts(ReplyView::Block(block)),
{
    counts_are_lengths(block.vtx);
    assert forall|i: int| 0 <= i < block.vtx.len() implies tx_readable(
        #[trigger] block.vtx[i],
    ) by {
        let tx = block.vtx[i];
        assert(tx_sound(tx));
        assert forall|j: int| 0 <= j < tx.actions.len() implies is_element(
            (#[trigger] tx.actions[j]).nullifier,
            PALLAS_BASE_ORDER,
        ) by {
            elements_are_numbers_below_the_order(tx.actions[j].nullifier, PALLAS_BASE_ORDER);
        }
    }
}

/// Whether a block is the next one after what the scan knows of the block before.
pub open spec fn is_next(run: ScanRunView, block: CompactBlockView) -> bool {
    run.prior matches Some(p) ==> {
        &&& block.height == if p.height < u32::MAX {
            p.height + 1
        } else {
            u32::MAX as int
        }
        &&& parent_hash(block) == p.hash
    }
}

/// A block that is out of shape is turned down: with a height beyond 32 bits in any case, and as
/// the next block with a hash that does not have 32 bytes, or with trees that outgrow 32 bits.
pub proof fn blocks_out_of_shape_are_turned_down(run: ScanRunView, block: CompactBlockView)
    requires
        run.stage == ScanStage::Streaming,
        run.accepts(ReplyView::Block(block)),
    ensures
        block.height <= u32::MAX,
        is_next(run, block) ==> block_hash(block).len() == 32,
        is_next(run, block) && run.prior is Some ==> parent_hash(block).len() == 32,
        is_next(run, block) ==> {
            let outputs = block.vtx.flat_map(|tx: CompactTxView| tx.outputs).len();
            let actions = block.vtx.flat_map(|tx: CompactTxView| tx.actions).len();
            run.prior matches Some(p) ==> (p.sapling_tree_size matches Some(n) ==> {
                &&& n + outputs <= u32::MAX
                &&& p.orchard_tree_size matches Some(m) ==> m + actions <= u32::MAX
            })
        },
{
    counts_are_lengths(block.vtx);
}

/// Where the sizes of both trees are known, a next block with a transaction out of shape is
/// turned down, unless a transaction before it or an output in it does not parse.
pub proof fn transactions_out_of_shape_are_turned_down(
    run: ScanRunView,
    block: CompactBlockView,
    i: int,
)
    requires
        run.stage == ScanStage::Streaming,
        run.accepts(ReplyView::Block(block)),
        is_next(run, block),
        run.prior matches Some(p) && p.sapling_tree_size is Some && p.orchard_tree_size is Some,
        0 <= i < block.vtx.len(),
        forall|j: int| 0 <= j < i ==> tx_parses(#[trigger] block.vtx[j]),
        forall|j: int|
            0 <= j < block.vtx[i].outputs.len() ==> output_parses(
                #[trigger] block.vtx[i].outputs[j],
            ),
    ensures
        tx_sound(block.vtx[i]),
{
    let tx = block.vtx[i];
    assert(tx_readable(tx));
    assert forall|j: int| 0 <= j < tx.actions.len() implies ({
        let nullifier = (#[trigger] tx.actions[j]).nullifier;
        nullifier.len() == 32 && le_value(nullifier) < le_value(PALLAS_BASE_ORDER@)
    }) by {
        elements_are_numbers_below_the_order(tx.actions[j].nullifier, PALLAS_BASE_ORDER);
    }
    assert forall|j: int| 0 <= j < tx.outputs.len() implies (#[trigger] tx.outputs[j]).cmu.len()
        == 32 by {
        assert(output_parses(tx.outputs[j]));
    }
}

/// A block that does not continue the one before is not turned down either: it ends the scan.
pub proof fn stray_blocks_are_not_turned_down(run: ScanRunView, block: CompactBlockView)
    requires
        block.height <= u32::MAX,
        parent_hash(block).len() == 32,
        run.prior matches Some(p) && (parent_hash(block) != p.hash || block.height != p.height + 1),
        run.prior matches Some(p) && p.height < u32::MAX,
    ensures
        run.accepts(ReplyView::Block(block)),
{
}

/// Only blocks and tree states can be turned down, and only where they are due.
pub proof fn only_blocks_and_tree_states_are_turned_down(run: ScanRunView, reply: ReplyView)
    requires
        !run.accepts(reply),
    ensures
        ({
            ||| run.stage is AwaitingTree && reply is TreeState
            ||| run.stage is Streaming && reply is Block
        }),
{
}

/// Whether a tree has no node but with its first leaf.
pub open spec fn rooted(nodes: Seq<bool>) -> bool {
    nodes.len() > 0 && nodes[0] || (forall|i: int| 0 <= i < nodes.len() ==> !#[trigger] nodes[i])
}

/// A tree state with trees that have their first leaf or none at all is never turned down.
pub proof fn sound_tree_states_are_not_turned_down(run: ScanRunView, state: TreeStateView)
    requires
        sapling_nodes(state) matches Some(nodes) ==> rooted(nodes) && tree_size(nodes)
            <= usize::MAX,
        orchard_nodes(state) matches Some(nodes) ==> rooted(nodes) && tree_size(nodes)
            <= usize::MAX,
    ensures
        run.accepts(ReplyView::TreeState(state)),
{
}

/// A tree state that would say where the chain stands is turned down if one of its trees has
/// nodes but not its first leaf.
pub proof fn trees_without_a_first_leaf_are_turned_down(run: ScanRunView, state: TreeStateView)
    requires
        run.stage is AwaitingTree,
        run.accepts(ReplyView::TreeState(state)),
        tree_state_valid(state),
    ensures
        sapling_nodes(state) matches Some(nodes) && rooted(nodes) && tree_size(nodes)
            <= usize::MAX,
        orchard_nodes(state) matches Some(nodes) && rooted(nodes) && tree_size(nodes)
            <= usize::MAX,
{
}

/// A further node of a tree stands for as many notes as it merges: one for each of the two
/// leaves, and then twice as many from level to level.
pub proof fn nodes_stand_for_powers_of_two(nodes: Seq<bool>, filled: bool)
    ensures
        tree_size(nodes.push(filled)) == tree_size(nodes) + if !filled {
            0
        } else if nodes.len() < 2 {
            1
        } else {
            pow2((nodes.len() - 1) as nat)
        },
        tree_size(Seq::<bool>::empty()) == 0,
{
    assert(nodes.push(filled).drop_last() =~= nodes);
    weights_are_powers(nodes.len());
}

proof fn weights_are_powers(i: nat)
    ensures
        node_weight(i) == if i < 2 {
            1
        } else {
            pow2((i - 1) as nat)
        },
    decreases i,
{
    if i >= 2 {
        weights_are_powers((i - 1) as nat);
        lemma_pow2_unfold((i - 1) as nat);
        if i == 2 {
            lemma2_to64();
        }
    }
}

/// A transaction with identifiers of 32 bytes can be written down.
pub proof fn sound_transactions_can_be_written(tx: CompactTxView)
    requires
        tx_sound(tx),
    ensures
        tx_writable(tx),
{
}

} // verus!

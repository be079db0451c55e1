//! Keys, trial decryption and transaction parsing, which the Zcash crates provide.

use crate::chain::{
    block_hash, is_scannable, is_valid, orchard_action_count, orchard_before, prior_view,
    sapling_before, sapling_output_count, BlockMetadata, BlockMetadataView, ChainMetadata,
    CompactBlock, CompactBlockView, CompactOrchardAction, CompactSaplingOutput, CompactTx,
    CompactTxView, Network, TreeState, TreeStateView, BLS_SCALAR_ORDER, PALLAS_BASE_ORDER,
};
use crate::tree::{
    orchard_nodes, sapling_nodes, state_hash, tree_of, tree_size, tree_state_readable,
    tree_state_valid,
};
use std::collections::HashMap;
use vstd::prelude::*;
use zcash_client_backend::data_api::{self, ScannedBlock};
use zcash_client_backend::decrypt_transaction;
use zcash_client_backend::proto::compact_formats::{
    ChainMetadata as WireMetadata, CompactBlock as WireBlock, CompactOrchardAction as WireAction,
    CompactSaplingOutput as WireOutput, CompactSaplingSpend as WireSpend, CompactTx as WireTx,
};
use zcash_client_backend::proto::service;
use zcash_client_backend::scanning::{
    self, Nullifiers, ScanError as BlockScanError, ScanningKeys,
};
use zcash_keys::keys::UnifiedFullViewingKey;
use zcash_primitives::block::BlockHash;
use zcash_primitives::transaction::Transaction;
use zcash_protocol::consensus::{self, BlockHeight, BranchId};
use zcash_protocol::memo::{Memo, MemoBytes};
use zip32::Scope;

verus! {

/// A unified full viewing key of `zcash_keys`.
#[verifier::external_type_specification]
#[verifier::external_body]
pub struct ExUnifiedFullViewingKey(UnifiedFullViewingKey);

/// Whether a key is for payments from outside or for change.
#[verifier::external_type_specification]
#[verifier::external_body]
pub struct ExScope(Scope);

/// The keys that trial decryption uses.
#[verifier::external_type_specification]
#[verifier::external_body]
#[verifier::reject_recursive_types(AccountId)]
#[verifier::reject_recursive_types(IvkTag)]
pub struct ExScanningKeys<AccountId, IvkTag>(ScanningKeys<AccountId, IvkTag>);

/// A compact block of the wire format.
#[verifier::external_type_specification]
#[verifier::external_body]
pub struct ExWireBlock(WireBlock);

/// A transaction of the wire format.
#[verifier::external_type_specification]
#[verifier::external_body]
pub struct ExWireTx(WireTx);

/// What `scan_block` hands out.
#[verifier::external_type_specification]
#[verifier::external_body]
#[verifier::reject_recursive_types(A)]
pub struct ExScannedBlock<A>(ScannedBlock<A>);

/// Why `scan_block` failed.
#[verifier::external_type_specification]
#[verifier::external_body]
pub struct ExBlockScanError(BlockScanError);

/// A consensus branch.
#[verifier::external_type_specification]
#[verifier::external_body]
pub struct ExBranchId(BranchId);

/// A full transaction.
#[verifier::external_type_specification]
#[verifier::external_body]
pub struct ExTransaction(Transaction);

/// Why bytes could not be read.
#[verifier::external_type_specification]
#[verifier::external_body]
pub struct ExIoError(std::io::Error);

/// A note that the wallet received.
#[derive(Clone, Copy, Debug)]
pub struct ReceivedNote {
    pub value_zat: u64,
    /// The nullifier that will mark the note as spent, where the key can compute it.
    pub nullifier: Option<[u8; 32]>,
}

/// What a transaction of a block paid to the wallet.
#[derive(Clone, Debug)]
pub struct WalletTx {
    pub txid: [u8; 32],
    pub sapling: Vec<ReceivedNote>,
    pub orchard: Vec<ReceivedNote>,
}

pub struct WalletTxView {
    pub txid: Seq<u8>,
    pub sapling: Seq<ReceivedNote>,
    pub orchard: Seq<ReceivedNote>,
}

impl View for WalletTx {
    type V = WalletTxView;

    open spec fn view(&self) -> WalletTxView {
        WalletTxView { txid: self.txid@, sapling: self.sapling@, orchard: self.orchard@ }
    }
}

/// What trial decryption found in a block, and where the chain stands after it.
#[derive(Clone, Debug)]
pub struct Findings {
    pub transactions: Vec<WalletTx>,
    pub metadata: BlockMetadata,
}

pub struct FindingsView {
    pub transactions: Seq<WalletTxView>,
    pub metadata: BlockMetadataView,
}

impl View for Findings {
    type V = FindingsView;

    open spec fn view(&self) -> FindingsView {
        FindingsView {
            transactions: self.transactions@.map_values(|t: WalletTx| t@),
            metadata: self.metadata@,
        }
    }
}

/// The sizes of the note commitment trees at the end of the block that a tree state is about.
#[derive(Clone, Copy, Debug)]
pub struct ChainPosition {
    pub height: u32,
    pub hash: [u8; 32],
    pub sapling_tree_size: u64,
    pub orchard_tree_size: u64,
}

/// The viewing key that `UnifiedFullViewingKey::decode` reads from `text`; `None` where it
/// fails.
pub uninterp spec fn decoded_ufvk(network: Network, text: Seq<char>) -> Option<
    UnifiedFullViewingKey,
>;

/// The viewing keys that a set of scanning keys was made from, by account.
pub uninterp spec fn accounts_of(keys: ScanningKeys<u32, (u32, Scope)>) -> Map<
    u32,
    UnifiedFullViewingKey,
>;

/// What a transaction of the wire format holds.
pub uninterp spec fn tx_contents(tx: WireTx) -> CompactTxView;

/// What a compact block of the wire format holds.
pub uninterp spec fn block_contents(block: WireBlock) -> CompactBlockView;

/// What a scanned block holds.
pub uninterp spec fn scanned_contents(block: ScannedBlock<u32>) -> FindingsView;

/// What `scan_block` finds in `block` with the viewing keys of `accounts`; `None` where it
/// fails.
pub uninterp spec fn scan_outcome(
    network: Network,
    accounts: Map<u32, UnifiedFullViewingKey>,
    block: CompactBlockView,
    prior: Option<BlockMetadataView>,
) -> Option<FindingsView>;

/// The hash of the block and that of its parent, as `CompactBlock::header` reads them from a
/// full header; `None` where there is no header that parses.
pub uninterp spec fn header_hashes(header: Seq<u8>) -> Option<(Seq<u8>, Seq<u8>)>;

/// The consensus branch that is active at a height.
pub uninterp spec fn branch_at(network: Network, height: u32) -> BranchId;

/// The transaction that `Transaction::read` reads from `raw`; `None` where it fails.
pub uninterp spec fn parsed_transaction(raw: Seq<u8>, branch: BranchId) -> Option<Transaction>;

/// The memos that `decrypt_transaction` recovers: those of the Sapling outputs, then those of
/// the Orchard actions.
pub uninterp spec fn decrypted_memos(
    network: Network,
    height: u32,
    tx: Transaction,
    ufvk: UnifiedFullViewingKey,
) -> Seq<Seq<u8>>;

/// Calls `UnifiedFullViewingKey::decode`, which parses a ZIP 316 encoding and fails on any
/// other text and on a key of another network.
#[verifier::external_body]
pub(crate) fn decode_ufvk(network: Network, text: &str) -> (r: Result<
    UnifiedFullViewingKey,
    String,
>)
    ensures
        r.ok() == decoded_ufvk(network, text@),
{
    match network {
        Network::MainNetwork => {
            UnifiedFullViewingKey::decode(&consensus::Network::MainNetwork, text)
        },
        Network::TestNetwork => {
            UnifiedFullViewingKey::decode(&consensus::Network::TestNetwork, text)
        },
    }
}

/// Calls `ScanningKeys::from_account_ufvks` with one account, number 0: the external and the
/// internal keys of both pools, as far as the viewing key has them.
#[verifier::external_body]
pub(crate) fn scanning_keys(ufvk: UnifiedFullViewingKey) -> (r: ScanningKeys<u32, (u32, Scope)>)
    ensures
        accounts_of(r) == map![0u32 => ufvk],
{
    ScanningKeys::from_account_ufvks([(0u32, ufvk)])
}

/// The views of the two hashes of a header.
pub open spec fn hashes_view(hashes: Option<([u8; 32], [u8; 32])>) -> Option<(Seq<u8>, Seq<u8>)> {
    match hashes {
        Some(h) => Some((h.0@, h.1@)),
        None => None,
    }
}

/// Calls `CompactBlock::header`, which parses a full header, and takes the hash of the block and
/// that of its parent from it. Without bytes there is no header.
#[verifier::external_body]
pub(crate) fn read_header(header: &[u8]) -> (r: Option<([u8; 32], [u8; 32])>)
    ensures
        hashes_view(r) == header_hashes(header@),
        header@.len() == 0 ==> r is None,
{
    let block = WireBlock { header: header.to_vec(), ..Default::default() };
    block.header().map(|h| (h.hash().0, h.prev_block.0))
}

/// Builds a transaction of the wire format, a struct of public fields, from the same parts. The
/// fields that no scan reads (fee, transparent inputs and outputs) keep their defaults.
#[verifier::external_body]
fn wire_tx(tx: &CompactTx) -> (r: WireTx)
    ensures
        tx_contents(r) == tx@,
{
    let CompactTx { index, txid, spends, outputs, actions } = tx.clone();
    let output = |o: CompactSaplingOutput| WireOutput {
        cmu: o.cmu, ephemeral_key: o.ephemeral_key, ciphertext: o.ciphertext,
    };
    let action = |a: CompactOrchardAction| WireAction {
        nullifier: a.nullifier, cmx: a.cmx,
        ephemeral_key: a.ephemeral_key, ciphertext: a.ciphertext,
    };
    WireTx {
        index, txid,
        spends: spends.into_iter().map(|nf| WireSpend { nf }).collect(),
        outputs: outputs.into_iter().map(output).collect(),
        actions: actions.into_iter().map(action).collect(),
        ..Default::default()
    }
}

/// Builds a compact block of the wire format, a struct of public fields, from the same parts and
/// the given transactions. The format version, which no scan reads, keeps its default.
#[verifier::external_body]
fn wire_block(block: &CompactBlock, vtx: Vec<WireTx>) -> (r: WireBlock)
    ensures
        block_contents(r) == (CompactBlockView {
            vtx: vtx@.map_values(|t: WireTx| tx_contents(t)),
            ..block@
        }),
{
    WireBlock {
        height: block.height,
        hash: block.hash.clone(),
        prev_hash: block.prev_hash.clone(),
        time: block.time,
        header: block.header.clone(),
        vtx,
        chain_metadata: block.chain_metadata.map(|m| WireMetadata {
            sapling_commitment_tree_size: m.sapling_commitment_tree_size,
            orchard_commitment_tree_size: m.orchard_commitment_tree_size,
        }),
        ..Default::default()
    }
}

/// The block in the wire format.
fn to_wire(block: &CompactBlock) -> (r: WireBlock)
    ensures
        block_contents(r) == block@,
{
    let mut vtx: Vec<WireTx> = Vec::new();
    let ghost views = block@.vtx;
    let mut i: usize = 0;
    while i < block.vtx.len()
        invariant
            i <= block.vtx@.len(),
            vtx@.len() == i,
            views == block@.vtx,
            forall|k: int| 0 <= k < i ==> tx_contents(#[trigger] vtx@[k]) == views[k],
        decreases block.vtx@.len() - i,
    {
        assert(views[i as int] == block.vtx@[i as int]@);
        vtx.push(wire_tx(&block.vtx[i]));
        i += 1;
    }
    assert(vtx@.map_values(|t: WireTx| tx_contents(t)) =~= views);
    wire_block(block, vtx)
}

/// Calls `scan_block` with no nullifiers to track: trial decryption of every output of the
/// block. It fails exactly on a block that does not continue `prior`, with unknown or wrong tree
/// sizes, or with an output that does not parse. On success it has looked at every transaction
/// in order, so what it reports comes from transactions of the block, and its metadata is that
/// of the block.
///
/// The incoming viewing keys are tried in no fixed order; the outcome is still one, since no
/// two of them open the same note commitment.
#[verifier::external_body]
pub(crate) fn scan_block(
    network: Network,
    keys: &ScanningKeys<u32, (u32, Scope)>,
    block: WireBlock,
    prior: &Option<BlockMetadata>,
) -> (r: Result<ScannedBlock<u32>, BlockScanError>)
    requires
        is_scannable(network, block_contents(block), prior_view(*prior)),
    ensures
        r is Ok <==> is_valid(network, block_contents(block), prior_view(*prior)),
        r is Ok <==> scan_outcome(
            network,
            accounts_of(*keys),
            block_contents(block),
            prior_view(*prior),
        ) is Some,
        r matches Ok(s) ==> scan_outcome(
            network,
            accounts_of(*keys),
            block_contents(block),
            prior_view(*prior),
        ) == Some(scanned_contents(s)),
        r matches Ok(s) ==> scanned_follows(
            network,
            scanned_contents(s),
            block_contents(block),
            prior_view(*prior),
        ),
{
    let prior = prior.map(|p| data_api::BlockMetadata::from_parts(
        p.height.into(),
        BlockHash(p.hash),
        p.sapling_tree_size,
        p.orchard_tree_size,
    ));
    let network = match network {
        Network::MainNetwork => consensus::Network::MainNetwork,
        Network::TestNetwork => consensus::Network::TestNetwork,
    };
    scanning::scan_block(&network, block, keys, &Nullifiers::empty(), prior.as_ref())
}

/// The metadata is that of the block, the trees have grown by the block's outputs, and every
/// transaction reported is one of the block.
pub open spec fn scanned_follows(
    network: Network,
    scanned: FindingsView,
    block: CompactBlockView,
    prior: Option<BlockMetadataView>,
) -> bool {
    let after = scanned.metadata;
    &&& after.height == block.height
    &&& after.hash == block_hash(block)
    &&& after.sapling_tree_size matches Some(n) && n == sapling_before(network, block, prior)->0
        + sapling_output_count(block.vtx)
    &&& after.orchard_tree_size matches Some(n) && n == orchard_before(network, block, prior)->0
        + orchard_action_count(block.vtx)
    &&& forall|i: int|
        0 <= i < scanned.transactions.len() ==> has_tx(
            block,
            (#[trigger] scanned.transactions[i]).txid,
        )
}

/// Whether the block holds a transaction with this identifier.
pub open spec fn has_tx(block: CompactBlockView, txid: Seq<u8>) -> bool {
    exists|j: int| 0 <= j < block.vtx.len() && (#[trigger] block.vtx[j]).txid == txid
}

/// Reads the transactions of a scanned block: `ScannedBlock::transactions`, and of each output
/// its value and nullifier.
#[verifier::external_body]
pub(crate) fn scanned_transactions(block: &ScannedBlock<u32>) -> (r: Vec<WalletTx>)
    ensures
        r@.map_values(|t: WalletTx| t@) == scanned_contents(*block).transactions,
{
    block.transactions().iter().map(|tx| WalletTx {
        txid: *tx.txid().as_ref(),
        sapling: tx.sapling_outputs().iter().map(|o| ReceivedNote {
            value_zat: o.note().value().inner(),
            nullifier: o.nf().map(|nf| nf.0),
        }).collect(),
        orchard: tx.orchard_outputs().iter().map(|o| ReceivedNote {
            value_zat: o.note().value().inner(),
            nullifier: o.nf().map(|nf| nf.to_bytes()),
        }).collect(),
    }).collect()
}

/// Calls `ScannedBlock::to_block_metadata` and takes the metadata apart.
#[verifier::external_body]
pub(crate) fn scanned_metadata(block: &ScannedBlock<u32>) -> (r: BlockMetadata)
    ensures
        r@ == scanned_contents(*block).metadata,
{
    let m = block.to_block_metadata();
    BlockMetadata {
        height: m.block_height().into(),
        hash: m.block_hash().0,
        sapling_tree_size: m.sapling_tree_size(),
        orchard_tree_size: m.orchard_tree_size(),
    }
}

/// Scans one block with the keys of a wallet: trial decryption of its outputs, and where the
/// chain stands after it. `None` where the block is not valid after `prior`.
pub(crate) fn scan(
    network: Network,
    keys: &ScanningKeys<u32, (u32, Scope)>,
    block: &CompactBlock,
    prior: &Option<BlockMetadata>,
) -> (r: Option<Findings>)
    requires
        is_scannable(network, block@, prior_view(*prior)),
    ensures
        r is Some <==> is_valid(network, block@, prior_view(*prior)),
        r is Some <==> scan_outcome(network, accounts_of(*keys), block@, prior_view(*prior))
            is Some,
        r matches Some(found) ==> {
            &&& scan_outcome(network, accounts_of(*keys), block@, prior_view(*prior)) == Some(
                found@,
            )
            &&& scanned_follows(network, found@, block@, prior_view(*prior))
        },
{
    match scan_block(network, keys, to_wire(block), prior) {
        Ok(scanned) => {
            let found = Findings {
                transactions: scanned_transactions(&scanned),
                metadata: scanned_metadata(&scanned),
            };
            assert(found@ == scanned_contents(scanned));
            Some(found)
        },
        Err(_) => None,
    }
}

/// Calls `TreeState::sapling_tree`, which reads a Sapling tree in hexadecimal, and tells which of
/// its nodes are filled: the leaves `left` and `right`, then the `parents`.
#[verifier::external_body]
pub(crate) fn read_sapling_tree(text: &str) -> (r: Result<Vec<bool>, std::io::Error>)
    ensures
        r is Ok <==> tree_of(text@, BLS_SCALAR_ORDER) is Some,
        r matches Ok(nodes) ==> tree_of(text@, BLS_SCALAR_ORDER) == Some(nodes@),
{
    let wire = service::TreeState { sapling_tree: text.to_string(), ..Default::default() };
    wire.sapling_tree().map(|tree| {
        let leaves = [tree.left().is_some(), tree.right().is_some()];
        leaves.into_iter().chain(tree.parents().iter().map(|n| n.is_some())).collect()
    })
}

/// Calls `TreeState::orchard_tree`, which reads an Orchard tree in hexadecimal, and tells which
/// of its nodes are filled: the leaves `left` and `right`, then the `parents`.
#[verifier::external_body]
pub(crate) fn read_orchard_tree(text: &str) -> (r: Result<Vec<bool>, std::io::Error>)
    ensures
        r is Ok <==> tree_of(text@, PALLAS_BASE_ORDER) is Some,
        r matches Ok(nodes) ==> tree_of(text@, PALLAS_BASE_ORDER) == Some(nodes@),
{
    let wire = service::TreeState { orchard_tree: text.to_string(), ..Default::default() };
    wire.orchard_tree().map(|tree| {
        let leaves = [tree.left().is_some(), tree.right().is_some()];
        leaves.into_iter().chain(tree.parents().iter().map(|n| n.is_some())).collect()
    })
}

/// Whether a chain position is what a valid tree state says: its height, its hash, and the
/// sizes of its trees.
pub open spec fn position_follows(position: ChainPosition, state: TreeStateView) -> bool {
    &&& position.height == state.height
    &&& state_hash(state.hash) == Some(position.hash@)
    &&& position.sapling_tree_size == tree_size(sapling_nodes(state)->0)
    &&& position.orchard_tree_size == tree_size(orchard_nodes(state)->0)
}

/// Calls `TreeState::to_chain_state`, which reads the block's hash and height and both trees,
/// and takes the sizes of the trees. It fails exactly where one of these does not parse.
#[verifier::external_body]
pub(crate) fn read_tree_state(state: &TreeState) -> (r: Result<ChainPosition, std::io::Error>)
    requires
        tree_state_readable(state@),
    ensures
        r is Ok <==> tree_state_valid(state@),
        r matches Ok(p) ==> position_follows(p, state@),
{
    let TreeState { height, hash, sapling_tree, orchard_tree } = state.clone();
    let rest = service::TreeState::default();
    let wire = service::TreeState { height, hash, sapling_tree, orchard_tree, ..rest };
    wire.to_chain_state().map(|c| ChainPosition {
        height: c.block_height().into(),
        hash: c.block_hash().0,
        sapling_tree_size: c.final_sapling_tree().tree_size(),
        orchard_tree_size: c.final_orchard_tree().tree_size(),
    })
}

/// Calls `BranchId::for_height`: the branch of the last network upgrade that is active at the
/// height.
#[verifier::external_body]
pub(crate) fn branch_id(network: Network, height: u32) -> (r: BranchId)
    ensures
        r == branch_at(network, height),
{
    let height = BlockHeight::from_u32(height);
    match network {
        Network::MainNetwork => BranchId::for_height(&consensus::Network::MainNetwork, height),
        Network::TestNetwork => BranchId::for_height(&consensus::Network::TestNetwork, height),
    }
}

/// Calls `Transaction::read`, which parses a transaction from the start of `raw`.
#[verifier::external_body]
pub(crate) fn read_transaction(raw: &[u8], branch: BranchId) -> (r: Result<
    Transaction,
    std::io::Error,
>)
    ensures
        r.ok() == parsed_transaction(raw@, branch),
{
    Transaction::read(raw, branch)
}

/// Calls `decrypt_transaction` for a mined transaction and one account: every output that the
/// viewing key can read, by an incoming or the outgoing key, with its memo of 512 bytes.
#[verifier::external_body]
pub(crate) fn transaction_memos(
    network: Network,
    height: u32,
    tx: &Transaction,
    ufvk: UnifiedFullViewingKey,
) -> (r: Vec<[u8; 512]>)
    ensures
        r@.map_values(|m: [u8; 512]| m@) == decrypted_memos(network, height, *tx, ufvk),
{
    let ufvks = HashMap::from([(0u32, ufvk)]);
    let network = match network {
        Network::MainNetwork => consensus::Network::MainNetwork,
        Network::TestNetwork => consensus::Network::TestNetwork,
    };
    let mined = Some(BlockHeight::from_u32(height));
    let found = decrypt_transaction(&network, mined, None, tx, &ufvks);
    let sapling = found.sapling_outputs().iter().map(|o| *o.memo().as_array());
    sapling.chain(found.orchard_outputs().iter().map(|o| *o.memo().as_array())).collect()
}

/// The bytes before the zeros at the end.
pub open spec fn without_padding(bytes: Seq<u8>) -> Seq<u8>
    decreases bytes.len(),
{
    if bytes.len() > 0 && bytes.last() == 0 {
        without_padding(bytes.drop_last())
    } else {
        bytes
    }
}

/// The text of a memo: a memo is text if its first byte is at most `0xF4` and what comes before
/// the padding is UTF-8.
pub open spec fn text_of_memo(memo: Seq<u8>) -> Option<Seq<char>> {
    let bytes = without_padding(memo);
    if memo[0] <= 0xF4 && vstd::utf8::valid_utf8(bytes) {
        Some(vstd::utf8::decode_utf8(bytes))
    } else {
        None
    }
}

/// Calls `Memo::try_from` on the bytes of a memo and keeps the text of a text memo. A memo
/// whose first byte is at most `0xF4` is text, in UTF-8 up to its zero padding; any other
/// parses as another kind of memo or not at all.
#[verifier::external_body]
pub(crate) fn memo_text(memo: &[u8; 512]) -> (r: Option<String>)
    ensures
        r is Some <==> text_of_memo(memo@) is Some,
        r matches Some(text) ==> text_of_memo(memo@) == Some(text@),
{
    match MemoBytes::from_bytes(memo).and_then(Memo::try_from) {
        Ok(Memo::Text(text)) => Some(text.into()),
        _ => None,
    }
}

} // verus!

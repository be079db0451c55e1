//! What a lightwalletd server hands out about the chain: compact blocks and tree states.

use crate::backend::{hashes_view, header_hashes, read_header};
use vstd::prelude::*;

verus! {

/// The network whose rules and key encodings apply.
#[derive(Clone, Copy, Debug, PartialEq, Eq, Structural)]
pub enum Network {
    MainNetwork,
    TestNetwork,
}

/// A Sapling output without its memo.
#[derive(Clone, Debug)]
pub struct CompactSaplingOutput {
    /// The note commitment.
    pub cmu: Vec<u8>,
    pub ephemeral_key: Vec<u8>,
    /// The first bytes of the encrypted note.
    pub ciphertext: Vec<u8>,
}

/// An Orchard action without its memo.
#[derive(Clone, Debug)]
pub struct CompactOrchardAction {
    /// The nullifier of the note that the action spends.
    pub nullifier: Vec<u8>,
    /// The commitment of the note that the action creates.
    pub cmx: Vec<u8>,
    pub ephemeral_key: Vec<u8>,
    /// The first bytes of the encrypted note.
    pub ciphertext: Vec<u8>,
}

/// The shielded parts of a transaction.
#[derive(Clone, Debug)]
pub struct CompactTx {
    /// The position of the transaction in its block.
    pub index: u64,
    pub txid: Vec<u8>,
    /// The nullifier of each Sapling spend.
    pub spends: Vec<Vec<u8>>,
    pub outputs: Vec<CompactSaplingOutput>,
    pub actions: Vec<CompactOrchardAction>,
}

/// The sizes of the note commitment trees at the end of a block.
#[derive(Clone, Copy, Debug)]
pub struct ChainMetadata {
    pub sapling_commitment_tree_size: u32,
    pub orchard_commitment_tree_size: u32,
}

/// A block with the shielded parts of its transactions.
#[derive(Clone, Debug)]
pub struct CompactBlock {
    pub height: u64,
    /// The block's hash, for want of a header.
    pub hash: Vec<u8>,
    /// The parent's hash, for want of a header.
    pub prev_hash: Vec<u8>,
    /// When the block was mined, in seconds since the Unix epoch.
    pub time: u32,
    /// The full header; mostly empty.
    pub header: Vec<u8>,
    pub vtx: Vec<CompactTx>,
    pub chain_metadata: Option<ChainMetadata>,
}

/// The state of the note commitment trees at the end of a block, in the notation of the
/// `z_gettreestate` call.
#[derive(Clone, Debug)]
pub struct TreeState {
    pub height: u64,
    /// The block's hash in hexadecimal, in reversed byte order.
    pub hash: String,
    /// The Sapling tree in hexadecimal; empty for the empty tree.
    pub sapling_tree: String,
    /// The Orchard tree in hexadecimal; empty for the empty tree.
    pub orchard_tree: String,
}

/// Where the chain stands after a block.
#[derive(Clone, Copy, Debug)]
pub struct BlockMetadata {
    pub height: u32,
    pub hash: [u8; 32],
    pub sapling_tree_size: Option<u32>,
    pub orchard_tree_size: Option<u32>,
}

pub struct CompactSaplingOutputView {
    pub cmu: Seq<u8>,
    pub ephemeral_key: Seq<u8>,
    pub ciphertext: Seq<u8>,
}

pub struct CompactOrchardActionView {
    pub nullifier: Seq<u8>,
    pub cmx: Seq<u8>,
    pub ephemeral_key: Seq<u8>,
    pub ciphertext: Seq<u8>,
}

pub struct CompactTxView {
    pub index: u64,
    pub txid: Seq<u8>,
    pub spends: Seq<Seq<u8>>,
    pub outputs: Seq<CompactSaplingOutputView>,
    pub actions: Seq<CompactOrchardActionView>,
}

pub struct CompactBlockView {
    pub height: u64,
    pub hash: Seq<u8>,
    pub prev_hash: Seq<u8>,
    pub time: u32,
    pub header: Seq<u8>,
    pub vtx: Seq<CompactTxView>,
    pub chain_metadata: Option<ChainMetadata>,
}

pub struct BlockMetadataView {
    pub height: u32,
    pub hash: Seq<u8>,
    pub sapling_tree_size: Option<u32>,
    pub orchard_tree_size: Option<u32>,
}

pub struct TreeStateView {
    pub height: u64,
    pub hash: Seq<char>,
    pub sapling_tree: Seq<char>,
    pub orchard_tree: Seq<char>,
}

impl View for CompactSaplingOutput {
    type V = CompactSaplingOutputView;

    open spec fn view(&self) -> CompactSaplingOutputView {
        CompactSaplingOutputView {
            cmu: self.cmu@,
            ephemeral_key: self.ephemeral_key@,
            ciphertext: self.ciphertext@,
        }
    }
}

impl View for CompactOrchardAction {
    type V = CompactOrchardActionView;

    open spec fn view(&self) -> CompactOrchardActionView {
        CompactOrchardActionView {
            nullifier: self.nullifier@,
            cmx: self.cmx@,
            ephemeral_key: self.ephemeral_key@,
            ciphertext: self.ciphertext@,
        }
    }
}

impl View for CompactTx {
    type V = CompactTxView;

    open spec fn view(&self) -> CompactTxView {
        CompactTxView {
            index: self.index,
            txid: self.txid@,
            spends: self.spends@.map_values(|nf: Vec<u8>| nf@),
            outputs: self.outputs@.map_values(|o: CompactSaplingOutput| o@),
            actions: self.actions@.map_values(|a: CompactOrchardAction| a@),
        }
    }
}

impl View for CompactBlock {
    type V = CompactBlockView;

    open spec fn view(&self) -> CompactBlockView {
        CompactBlockView {
            height: self.height,
            hash: self.hash@,
            prev_hash: self.prev_hash@,
            time: self.time,
            header: self.header@,
            vtx: self.vtx@.map_values(|t: CompactTx| t@),
            chain_metadata: self.chain_metadata,
        }
    }
}

impl View for BlockMetadata {
    type V = BlockMetadataView;

    open spec fn view(&self) -> BlockMetadataView {
        BlockMetadataView {
            height: self.height,
            hash: self.hash@,
            sapling_tree_size: self.sapling_tree_size,
            orchard_tree_size: self.orchard_tree_size,
        }
    }
}

/// The view of what is known of the block before, if anything is.
pub open spec fn prior_view(prior: Option<BlockMetadata>) -> Option<BlockMetadataView> {
    match prior {
        Some(p) => Some(p@),
        None => None,
    }
}

impl View for TreeState {
    type V = TreeStateView;

    open spec fn view(&self) -> TreeStateView {
        TreeStateView {
            height: self.height,
            hash: self.hash@,
            sapling_tree: self.sapling_tree@,
            orchard_tree: self.orchard_tree@,
        }
    }
}

/// The height that follows `height`, which stays at the largest one.
pub open spec fn next_height(height: u32) -> u32 {
    if height < u32::MAX {
        (height + 1) as u32
    } else {
        u32::MAX
    }
}

/// The hash of a block: that of its header, where it has one that parses.
pub open spec fn block_hash(block: CompactBlockView) -> Seq<u8> {
    match header_hashes(block.header) {
        Some(hashes) => hashes.0,
        None => block.hash,
    }
}

/// The hash of a block's parent: the one that its header names, where it has one that parses.
pub open spec fn parent_hash(block: CompactBlockView) -> Seq<u8> {
    match header_hashes(block.header) {
        Some(hashes) => hashes.1,
        None => block.prev_hash,
    }
}

/// Whether `block` is the successor of the block that `prior` describes.
pub open spec fn continues(block: CompactBlockView, prior: Option<BlockMetadataView>) -> bool {
    prior matches Some(p) ==> block.height == next_height(p.height) && parent_hash(block) == p.hash
}

/// The order of the Pallas base field, least significant byte first.
pub const PALLAS_BASE_ORDER: [u8; 32] = [
    0x01, 0x00, 0x00, 0x00, 0xed, 0x30, 0x2d, 0x99, 0x1b, 0xf9, 0x4c, 0x09, 0xfc, 0x98, 0x46, 0x22,
    0x00, 0x00, 0x00, 0x00, 0x00, 0x00, 0x00, 0x00, 0x00, 0x00, 0x00, 0x00, 0x00, 0x00, 0x00, 0x40,
];

/// The order of the BLS12-381 scalar field, least significant byte first.
pub const BLS_SCALAR_ORDER: [u8; 32] = [
    0x01, 0x00, 0x00, 0x00, 0xff, 0xff, 0xff, 0xff, 0xfe, 0x5b, 0xfe, 0xff, 0x02, 0xa4, 0xbd, 0x53,
    0x05, 0xd8, 0xa1, 0x09, 0x08, 0xd8, 0x39, 0x33, 0x48, 0x7d, 0x9d, 0x29, 0x53, 0xa7, 0xed, 0x73,
];

/// How many bytes of an encrypted note compact outputs and actions hold.
pub const COMPACT_NOTE_SIZE: usize = 52;

/// Whether `a` is smaller than `b`, both read as numbers of equally many bytes with the least
/// significant byte first.
pub open spec fn le_less(a: Seq<u8>, b: Seq<u8>) -> bool {
    exists|k: int|
        0 <= k < a.len() && #[trigger] a[k] < b[k] && (forall|j: int|
            k < j < a.len() ==> a[j] == b[j])
}

/// Whether `bytes` is the encoding of an element of the field of the given order.
pub open spec fn is_element(bytes: Seq<u8>, order: [u8; 32]) -> bool {
    bytes.len() == 32 && le_less(bytes, order@)
}

/// Whether a Sapling output holds what its fields are for.
pub open spec fn output_parses(output: CompactSaplingOutputView) -> bool {
    &&& is_element(output.cmu, BLS_SCALAR_ORDER)
    &&& output.ephemeral_key.len() == 32
    &&& output.ciphertext.len() == COMPACT_NOTE_SIZE
}

/// Whether an Orchard action holds what its fields are for.
pub open spec fn action_parses(action: CompactOrchardActionView) -> bool {
    &&& is_element(action.nullifier, PALLAS_BASE_ORDER)
    &&& is_element(action.cmx, PALLAS_BASE_ORDER)
    &&& action.ephemeral_key.len() == 32
    &&& action.ciphertext.len() == COMPACT_NOTE_SIZE
}

/// Whether all outputs and actions of a transaction hold what they should.
pub open spec fn tx_parses(tx: CompactTxView) -> bool {
    &&& forall|i: int| 0 <= i < tx.outputs.len() ==> output_parses(#[trigger] tx.outputs[i])
    &&& forall|i: int| 0 <= i < tx.actions.len() ==> action_parses(#[trigger] tx.actions[i])
}

/// What a transaction has to be for a scan to look at it at all: its position fits in 16 bits,
/// identifiers have their length and nullifiers are valid. The outputs are looked at up to the
/// first that does not parse, and each of these needs a commitment of the right length.
pub open spec fn tx_readable(tx: CompactTxView) -> bool {
    &&& tx.index <= u16::MAX
    &&& tx.txid.len() == 32
    &&& forall|i: int| 0 <= i < tx.spends.len() ==> (#[trigger] tx.spends[i]).len() == 32
    &&& forall|i: int|
        0 <= i < tx.actions.len() ==> is_element(
            (#[trigger] tx.actions[i]).nullifier,
            PALLAS_BASE_ORDER,
        )
    &&& forall|i: int|
        0 <= i < tx.outputs.len() && (forall|j: int|
            0 <= j < i ==> output_parses(#[trigger] tx.outputs[j])) ==> (
        #[trigger] tx.outputs[i]).cmu.len() == 32
}

/// Whether the transactions are readable up to the first that does not parse, where a scan
/// gives up.
pub open spec fn txs_readable(vtx: Seq<CompactTxView>) -> bool {
    forall|i: int|
        0 <= i < vtx.len() && (forall|j: int| 0 <= j < i ==> tx_parses(#[trigger] vtx[j]))
            ==> tx_readable(#[trigger] vtx[i])
}

/// How many Sapling outputs the transactions have.
pub open spec fn sapling_output_count(vtx: Seq<CompactTxView>) -> nat
    decreases vtx.len(),
{
    if vtx.len() == 0 {
        0
    } else {
        sapling_output_count(vtx.drop_last()) + vtx.last().outputs.len()
    }
}

/// How many Orchard actions the transactions have.
pub open spec fn orchard_action_count(vtx: Seq<CompactTxView>) -> nat
    decreases vtx.len(),
{
    if vtx.len() == 0 {
        0
    } else {
        orchard_action_count(vtx.drop_last()) + vtx.last().actions.len()
    }
}

/// The height from which on blocks have Sapling outputs.
pub open spec fn sapling_activation(network: Network) -> u32 {
    match network {
        Network::MainNetwork => 419_200,
        Network::TestNetwork => 280_000,
    }
}

/// The height from which on blocks have Orchard actions.
pub open spec fn orchard_activation(network: Network) -> u32 {
    match network {
        Network::MainNetwork => 1_687_104,
        Network::TestNetwork => 1_842_420,
    }
}

/// The size of a note commitment tree before a block that adds `added` notes: what is known of
/// the block before, or else what the block says of its end. Where neither tells, the tree is
/// empty before its pool is active and unknown afterwards.
pub open spec fn size_before(
    known: Option<u32>,
    at_end: Option<u32>,
    added: nat,
    active: bool,
) -> Option<int> {
    match (known, at_end) {
        (Some(n), _) => Some(n as int),
        (None, Some(n)) => if n >= added {
            Some(n - added)
        } else {
            None
        },
        (None, None) => if active {
            None
        } else {
            Some(0)
        },
    }
}

/// Whether counting the notes of a tree that a block adds `added` notes to stays within 32 bits,
/// as far as they are counted: where the size before is unknown for want of any hint they are
/// not.
pub open spec fn size_fits(
    known: Option<u32>,
    at_end: Option<u32>,
    added: nat,
    active: bool,
) -> bool {
    match (known, at_end) {
        (Some(n), _) => n + added <= u32::MAX,
        (None, Some(_)) => added <= u32::MAX,
        (None, None) => active || added <= u32::MAX,
    }
}

/// The size of the Sapling tree that `prior` tells.
pub open spec fn sapling_known(prior: Option<BlockMetadataView>) -> Option<u32> {
    match prior {
        Some(p) => p.sapling_tree_size,
        None => None,
    }
}

/// The size of the Orchard tree that `prior` tells.
pub open spec fn orchard_known(prior: Option<BlockMetadataView>) -> Option<u32> {
    match prior {
        Some(p) => p.orchard_tree_size,
        None => None,
    }
}

/// The size that a block claims for the Sapling tree at its end.
pub open spec fn sapling_claimed(block: CompactBlockView) -> Option<u32> {
    match block.chain_metadata {
        Some(m) => Some(m.sapling_commitment_tree_size),
        None => None,
    }
}

/// The size that a block claims for the Orchard tree at its end.
pub open spec fn orchard_claimed(block: CompactBlockView) -> Option<u32> {
    match block.chain_metadata {
        Some(m) => Some(m.orchard_commitment_tree_size),
        None => None,
    }
}

/// The size of the Sapling tree before a block that follows `prior`.
pub open spec fn sapling_before(
    network: Network,
    block: CompactBlockView,
    prior: Option<BlockMetadataView>,
) -> Option<int> {
    size_before(
        sapling_known(prior),
        sapling_claimed(block),
        sapling_output_count(block.vtx),
        block.height >= sapling_activation(network),
    )
}

/// The size of the Orchard tree before a block that follows `prior`.
pub open spec fn orchard_before(
    network: Network,
    block: CompactBlockView,
    prior: Option<BlockMetadataView>,
) -> Option<int> {
    size_before(
        orchard_known(prior),
        orchard_claimed(block),
        orchard_action_count(block.vtx),
        block.height >= orchard_activation(network),
    )
}

/// Whether a scan succeeds on a block after `prior`: the block is its successor, the sizes of
/// the trees before it are known, its transactions parse, and the sizes that the block claims
/// for its end are right.
pub open spec fn is_valid(
    network: Network,
    block: CompactBlockView,
    prior: Option<BlockMetadataView>,
) -> bool {
    &&& continues(block, prior)
    &&& sapling_before(network, block, prior) is Some
    &&& orchard_before(network, block, prior) is Some
    &&& forall|i: int| 0 <= i < block.vtx.len() ==> tx_parses(#[trigger] block.vtx[i])
    &&& block.chain_metadata matches Some(m) ==> {
        &&& m.sapling_commitment_tree_size == sapling_before(network, block, prior)->0
            + sapling_output_count(block.vtx)
        &&& m.orchard_commitment_tree_size == orchard_before(network, block, prior)->0
            + orchard_action_count(block.vtx)
    }
}

/// What a block has to be for a scan to take it up after `prior`, whether it then succeeds or
/// not: its height fits in 32 bits, hashes have their length, the trees do not outgrow their
/// counters, and the transactions are readable. Of a block that does not continue `prior` only
/// the height and the parent's hash are looked at. Where the size of the Sapling tree is unknown
/// nothing further is, and where that of the Orchard tree is, no transaction.
pub open spec fn is_scannable(
    network: Network,
    block: CompactBlockView,
    prior: Option<BlockMetadataView>,
) -> bool {
    &&& block.height <= u32::MAX
    &&& (prior matches Some(p) && block.height == next_height(p.height))
        ==> parent_hash(block).len() == 32
    &&& continues(block, prior) ==> {
        &&& block_hash(block).len() == 32
        &&& size_fits(
            sapling_known(prior),
            sapling_claimed(block),
            sapling_output_count(block.vtx),
            block.height >= sapling_activation(network),
        )
        &&& sapling_before(network, block, prior) is Some ==> {
            &&& size_fits(
                orchard_known(prior),
                orchard_claimed(block),
                orchard_action_count(block.vtx),
                block.height >= orchard_activation(network),
            )
            &&& orchard_before(network, block, prior) is Some ==> txs_readable(block.vtx)
        }
    }
}

/// The transactions of a block that scans successfully are all readable.
pub proof fn parsed_txs_are_readable(vtx: Seq<CompactTxView>)
    requires
        txs_readable(vtx),
        forall|i: int| 0 <= i < vtx.len() ==> tx_parses(#[trigger] vtx[i]),
    ensures
        forall|i: int| 0 <= i < vtx.len() ==> tx_readable(#[trigger] vtx[i]),
{
}

/// Whether `bytes` is the encoding of an element of the field of the given order.
fn check_element(bytes: &[u8], order: [u8; 32]) -> (r: bool)
    ensures
        r == is_element(bytes@, order),
{
    if bytes.len() != 32 {
        return false;
    }
    let mut k: usize = 32;
    while k > 0
        invariant
            k <= 32,
            bytes@.len() == 32,
            forall|j: int| k <= j < 32 ==> bytes@[j] == order@[j],
        decreases k,
    {
        k -= 1;
        if bytes[k] < order[k] {
            assert(bytes@[k as int] < order@[k as int]);
            return true;
        }
        if bytes[k] > order[k] {
            return false;
        }
    }
    false
}

impl CompactSaplingOutput {
    fn parses(&self) -> (r: bool)
        ensures
            r == output_parses(self@),
    {
        check_element(self.cmu.as_slice(), BLS_SCALAR_ORDER) && self.ephemeral_key.len() == 32
            && self.ciphertext.len() == COMPACT_NOTE_SIZE
    }
}

impl CompactOrchardAction {
    fn parses(&self) -> (r: bool)
        ensures
            r == action_parses(self@),
    {
        check_element(self.nullifier.as_slice(), PALLAS_BASE_ORDER) && check_element(
            self.cmx.as_slice(),
            PALLAS_BASE_ORDER,
        ) && self.ephemeral_key.len() == 32 && self.ciphertext.len() == COMPACT_NOTE_SIZE
    }
}

impl CompactTx {
    fn parses(&self) -> (r: bool)
        ensures
            r == tx_parses(self@),
    {
        let mut i: usize = 0;
        while i < self.outputs.len()
            invariant
                i <= self.outputs@.len(),
                forall|k: int| 0 <= k < i ==> output_parses(#[trigger] self@.outputs[k]),
            decreases self.outputs@.len() - i,
        {
            assert(self@.outputs[i as int] == self.outputs@[i as int]@);
            if !self.outputs[i].parses() {
                return false;
            }
            i += 1;
        }
        let mut j: usize = 0;
        while j < self.actions.len()
            invariant
                j <= self.actions@.len(),
                forall|k: int| 0 <= k < j ==> action_parses(#[trigger] self@.actions[k]),
            decreases self.actions@.len() - j,
        {
            assert(self@.actions[j as int] == self.actions@[j as int]@);
            if !self.actions[j].parses() {
                return false;
            }
            j += 1;
        }
        true
    }

    /// Whether each output up to the first that does not parse has a commitment of the right
    /// length.
    fn commitments_readable(&self) -> (r: bool)
        ensures
            r == forall|i: int|
                0 <= i < self@.outputs.len() && (forall|j: int|
                    0 <= j < i ==> output_parses(#[trigger] self@.outputs[j])) ==> (
                #[trigger] self@.outputs[i]).cmu.len() == 32,
    {
        let mut i: usize = 0;
        while i < self.outputs.len()
            invariant
                i <= self.outputs@.len(),
                forall|k: int| 0 <= k < i ==> output_parses(#[trigger] self@.outputs[k]),
            decreases self.outputs@.len() - i,
        {
            assert(self@.outputs[i as int] == self.outputs@[i as int]@);
            if self.outputs[i].cmu.len() != 32 {
                return false;
            }
            if !self.outputs[i].parses() {
                return true;
            }
            i += 1;
        }
        true
    }

    fn readable(&self) -> (r: bool)
        ensures
            r == tx_readable(self@),
    {
        if self.index > 0xffff || self.txid.len() != 32 {
            return false;
        }
        let mut i: usize = 0;
        while i < self.spends.len()
            invariant
                i <= self.spends@.len(),
                forall|k: int| 0 <= k < i ==> (#[trigger] self@.spends[k]).len() == 32,
            decreases self.spends@.len() - i,
        {
            assert(self@.spends[i as int] == self.spends@[i as int]@);
            if self.spends[i].len() != 32 {
                return false;
            }
            i += 1;
        }
        let mut j: usize = 0;
        while j < self.actions.len()
            invariant
                j <= self.actions@.len(),
                forall|k: int|
                    0 <= k < j ==> is_element(
                        (#[trigger] self@.actions[k]).nullifier,
                        PALLAS_BASE_ORDER,
                    ),
            decreases self.actions@.len() - j,
        {
            assert(self@.actions[j as int] == self.actions@[j as int]@);
            if !check_element(self.actions[j].nullifier.as_slice(), PALLAS_BASE_ORDER) {
                return false;
            }
            j += 1;
        }
        self.commitments_readable()
    }
}

proof fn counts_grow(vtx: Seq<CompactTxView>, n: int)
    requires
        0 <= n <= vtx.len(),
    ensures
        sapling_output_count(vtx.take(n)) <= sapling_output_count(vtx),
        orchard_action_count(vtx.take(n)) <= orchard_action_count(vtx),
    decreases vtx.len(),
{
    if n == vtx.len() {
        assert(vtx.take(n) =~= vtx);
    } else {
        counts_grow(vtx.drop_last(), n);
        assert(vtx.drop_last().take(n) =~= vtx.take(n));
    }
}

/// Whether two byte strings are equal.
fn same_bytes(a: &[u8], b: &[u8]) -> (r: bool)
    ensures
        r == (a@ == b@),
{
    if a.len() != b.len() {
        return false;
    }
    let mut i: usize = 0;
    while i < a.len()
        invariant
            i <= a@.len(),
            a@.len() == b@.len(),
            forall|k: int| 0 <= k < i ==> a@[k] == b@[k],
        decreases a@.len() - i,
    {
        if a[i] != b[i] {
            return false;
        }
        i += 1;
    }
    assert(a@ =~= b@);
    true
}

/// The size of a note commitment tree before a block that adds `count` notes: see
/// [`size_before`]. `None` where the size does not fit. `added` is the number of notes where
/// that fits in 32 bits.
fn find_size(
    known: Option<u32>,
    at_end: Option<u32>,
    added: Option<u32>,
    active: bool,
    Ghost(count): Ghost<nat>,
) -> (r: Option<Option<u32>>)
    requires
        match added {
            Some(n) => n == count,
            None => count > u32::MAX,
        },
    ensures
        r is Some <==> size_fits(known, at_end, count, active),
        r matches Some(size) ==> match size_before(known, at_end, count, active) {
            Some(n) => size matches Some(m) && m == n,
            None => size is None,
        },
{
    match (known, at_end, added) {
        (Some(n), _, Some(more)) => if more <= 0xffff_ffff - n {
            Some(Some(n))
        } else {
            None
        },
        (None, Some(n), Some(more)) => if n >= more {
            Some(Some(n - more))
        } else {
            Some(None)
        },
        (None, None, _) if active => Some(None),
        (None, None, Some(_)) => Some(Some(0)),
        _ => None,
    }
}

impl CompactBlock {
    /// How many Sapling outputs the block has; `None` if that does not fit in 32 bits.
    fn count_outputs(&self) -> (r: Option<u32>)
        ensures
            match r {
                Some(n) => n == sapling_output_count(self@.vtx),
                None => sapling_output_count(self@.vtx) > u32::MAX,
            },
    {
        let mut count: u32 = 0;
        let ghost vtx = self@.vtx;
        let mut i: usize = 0;
        while i < self.vtx.len()
            invariant
                i <= self.vtx@.len(),
                vtx == self@.vtx,
                vtx.len() == self.vtx@.len(),
                count == sapling_output_count(vtx.take(i as int)),
            decreases self.vtx@.len() - i,
        {
            proof {
                let next = vtx.take(i + 1);
                assert(next.drop_last() =~= vtx.take(i as int));
                assert(next.last() == vtx[i as int]);
                assert(vtx[i as int] == self.vtx@[i as int]@);
                counts_grow(vtx, i + 1);
            }
            let more: usize = self.vtx[i].outputs.len();
            if more as u64 > (0xffff_ffff - count) as u64 {
                return None;
            }
            count += more as u32;
            i += 1;
        }
        assert(vtx.take(i as int) =~= vtx);
        Some(count)
    }

    /// How many Orchard actions the block has; `None` if that does not fit in 32 bits.
    fn count_actions(&self) -> (r: Option<u32>)
        ensures
            match r {
                Some(n) => n == orchard_action_count(self@.vtx),
                None => orchard_action_count(self@.vtx) > u32::MAX,
            },
    {
        let mut count: u32 = 0;
        let ghost vtx = self@.vtx;
        let mut i: usize = 0;
        while i < self.vtx.len()
            invariant
                i <= self.vtx@.len(),
                vtx == self@.vtx,
                vtx.len() == self.vtx@.len(),
                count == orchard_action_count(vtx.take(i as int)),
            decreases self.vtx@.len() - i,
        {
            proof {
                let next = vtx.take(i + 1);
                assert(next.drop_last() =~= vtx.take(i as int));
                assert(next.last() == vtx[i as int]);
                assert(vtx[i as int] == self.vtx@[i as int]@);
                counts_grow(vtx, i + 1);
            }
            let more: usize = self.vtx[i].actions.len();
            if more as u64 > (0xffff_ffff - count) as u64 {
                return None;
            }
            count += more as u32;
            i += 1;
        }
        assert(vtx.take(i as int) =~= vtx);
        Some(count)
    }

    /// Whether the transactions are readable up to the first that does not parse.
    fn txs_readable(&self) -> (r: bool)
        ensures
            r == txs_readable(self@.vtx),
    {
        let ghost vtx = self@.vtx;
        let mut i: usize = 0;
        while i < self.vtx.len()
            invariant
                i <= self.vtx@.len(),
                vtx == self@.vtx,
                forall|k: int| 0 <= k < i ==> tx_parses(#[trigger] vtx[k]),
                forall|k: int| 0 <= k < i ==> tx_readable(#[trigger] vtx[k]),
            decreases self.vtx@.len() - i,
        {
            assert(vtx[i as int] == self.vtx@[i as int]@);
            if !self.vtx[i].readable() {
                return false;
            }
            if !self.vtx[i].parses() {
                return true;
            }
            i += 1;
        }
        true
    }

    /// Whether the block continues `prior`; `None` where the parent's hash is looked at and does
    /// not have its length.
    fn follows(&self, hashes: &Option<([u8; 32], [u8; 32])>, prior: &Option<BlockMetadata>) -> (r:
        Option<bool>)
        requires
            hashes_view(*hashes) == header_hashes(self@.header),
        ensures
            r is None <==> (prior matches Some(p) && self@.height == next_height(p.height)
                && parent_hash(self@).len() != 32),
            r matches Some(b) ==> b == continues(self@, prior_view(*prior)),
    {
        let p: &BlockMetadata = match prior {
            Some(p) => p,
            None => return Some(true),
        };
        let next: u32 = p.height.saturating_add(1);
        if self.height != next as u64 {
            return Some(false);
        }
        let parent: &[u8] = match hashes {
            Some(h) => h.1.as_slice(),
            None => self.prev_hash.as_slice(),
        };
        if parent.len() != 32 {
            return None;
        }
        Some(same_bytes(parent, p.hash.as_slice()))
    }

    /// Whether a scan can take up this block after `prior`: see [`is_scannable`].
    pub fn scannable(&self, network: Network, prior: &Option<BlockMetadata>) -> (r: bool)
        ensures
            r == is_scannable(network, self@, prior_view(*prior)),
    {
        if self.height > 0xffff_ffff {
            return false;
        }
        let hashes: Option<([u8; 32], [u8; 32])> = read_header(self.header.as_slice());
        match self.follows(&hashes, prior) {
            Some(true) => {},
            Some(false) => return true,
            None => return false,
        }
        if hashes.is_none() && self.hash.len() != 32 {
            return false;
        }
        let (sapling_known, orchard_known): (Option<u32>, Option<u32>) = match prior {
            Some(p) => (p.sapling_tree_size, p.orchard_tree_size),
            None => (None, None),
        };
        let (sapling_claimed, orchard_claimed): (Option<u32>, Option<u32>) =
            match self.chain_metadata {
            Some(m) => (
                Some(m.sapling_commitment_tree_size),
                Some(m.orchard_commitment_tree_size),
            ),
            None => (None, None),
        };
        let (sapling_height, orchard_height): (u64, u64) = match network {
            Network::MainNetwork => (419_200, 1_687_104),
            Network::TestNetwork => (280_000, 1_842_420),
        };
        match find_size(
            sapling_known,
            sapling_claimed,
            self.count_outputs(),
            self.height >= sapling_height,
            Ghost(sapling_output_count(self@.vtx)),
        ) {
            Some(Some(_)) => {},
            Some(None) => return true,
            None => return false,
        }
        match find_size(
            orchard_known,
            orchard_claimed,
            self.count_actions(),
            self.height >= orchard_height,
            Ghost(orchard_action_count(self@.vtx)),
        ) {
            Some(Some(_)) => self.txs_readable(),
            Some(None) => true,
            None => false,
        }
    }
}

} // verus!

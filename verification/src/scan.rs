//! Scanning a range of blocks for what a viewing key received and spent.
//!
//! A scan connects to the server, asks for the tip, settles the range, seeds the note positions
//! from the tree state before the first block, and then takes up one block after the other.
//! Received notes come from trial decryption. A note counts as spent when its nullifier turns
//! up in a block.

use crate::backend::{
    accounts_of, decode_ufvk, decoded_ufvk, read_tree_state, scan, scan_outcome,
    scanned_follows, scanning_keys, ChainPosition, Findings, FindingsView, ReceivedNote, WalletTx,
    WalletTxView,
};
use crate::chain::{
    is_scannable, is_valid, orchard_action_count, parsed_txs_are_readable, sapling_output_count,
    prior_view, BlockMetadata, BlockMetadataView, CompactBlock, CompactBlockView,
    CompactOrchardActionView, CompactTx, CompactTxView, Network, TreeState, TreeStateView,
};
use crate::config::{network_for, network_named, Config};
use crate::encoding::{decimal, decimal_text, hex_encode, hex_encoded};
use crate::error::{ScanError, ScanErrorView};
use crate::protocol::{Action, ActionView, Reply, ReplyView};
use crate::tree::{
    orchard_nodes, sapling_nodes, state_hash, tree_size, tree_state_readable, tree_state_valid,
};
use vstd::hash_map::StringHashMap;
use vstd::prelude::*;
use vstd::string::*;
use zcash_client_backend::scanning::ScanningKeys;
use zcash_keys::keys::UnifiedFullViewingKey;
use zip32::Scope;

verus! {

/// A note that came in or went out: its value and where it happened, never a memo.
#[derive(Debug)]
pub struct Note {
    pub value_zat: u64,
    pub height: u64,
    /// When the block was mined, in seconds since the Unix epoch.
    pub time: u64,
    /// The transaction's identifier in hexadecimal.
    pub txid: String,
    /// `sapling` or `orchard`.
    pub pool: String,
}

pub struct NoteView {
    pub value_zat: u64,
    pub height: u64,
    pub time: u64,
    pub txid: Seq<char>,
    pub pool: Seq<char>,
}

impl View for Note {
    type V = NoteView;

    open spec fn view(&self) -> NoteView {
        NoteView {
            value_zat: self.value_zat,
            height: self.height,
            time: self.time,
            txid: self.txid@,
            pool: self.pool@,
        }
    }
}

/// The views of a list of notes.
pub open spec fn note_views(notes: Seq<Note>) -> Seq<NoteView> {
    notes.map_values(|n: Note| n@)
}

/// What a scan found.
#[derive(Debug)]
pub struct ScanOutput {
    pub received: Vec<Note>,
    pub spent: Vec<Note>,
    pub scanned_to_height: u64,
}

pub struct ScanOutputView {
    pub received: Seq<NoteView>,
    pub spent: Seq<NoteView>,
    pub scanned_to_height: u64,
}

impl View for ScanOutput {
    type V = ScanOutputView;

    open spec fn view(&self) -> ScanOutputView {
        ScanOutputView {
            received: note_views(self.received@),
            spent: note_views(self.spent@),
            scanned_to_height: self.scanned_to_height,
        }
    }
}

/// A note of a transaction of `block`.
pub open spec fn note_in(
    block: CompactBlockView,
    txid: Seq<u8>,
    value_zat: u64,
    pool: Seq<char>,
) -> NoteView {
    NoteView {
        value_zat,
        height: block.height,
        time: block.time as u64,
        txid: hex_encoded(txid),
        pool,
    }
}

/// The notes that one pool of a transaction paid to the wallet.
pub open spec fn pool_received(
    block: CompactBlockView,
    txid: Seq<u8>,
    notes: Seq<ReceivedNote>,
    pool: Seq<char>,
) -> Seq<NoteView> {
    notes.map_values(|n: ReceivedNote| note_in(block, txid, n.value_zat, pool))
}

/// The notes that a transaction paid to the wallet, the Sapling ones first.
pub open spec fn tx_received(block: CompactBlockView, tx: WalletTxView) -> Seq<NoteView> {
    pool_received(block, tx.txid, tx.sapling, "sapling"@) + pool_received(
        block,
        tx.txid,
        tx.orchard,
        "orchard"@,
    )
}

/// The notes that a block paid to the wallet, in the order of its transactions.
pub open spec fn block_received(block: CompactBlockView, txs: Seq<WalletTxView>) -> Seq<NoteView>
    decreases txs.len(),
{
    if txs.len() == 0 {
        Seq::empty()
    } else {
        block_received(block, txs.drop_last()) + tx_received(block, txs.last())
    }
}

/// The values of the notes known so far, by nullifier in hexadecimal, after further notes came
/// in. A note without a nullifier cannot be recognised later.
pub open spec fn notes_known(known: Map<Seq<char>, u64>, notes: Seq<ReceivedNote>) -> Map<
    Seq<char>,
    u64,
>
    decreases notes.len(),
{
    if notes.len() == 0 {
        known
    } else {
        let before = notes_known(known, notes.drop_last());
        match notes.last().nullifier {
            Some(nf) => before.insert(hex_encoded(nf@), notes.last().value_zat),
            None => before,
        }
    }
}

/// The notes known after a transaction.
pub open spec fn tx_known(known: Map<Seq<char>, u64>, tx: WalletTxView) -> Map<Seq<char>, u64> {
    notes_known(notes_known(known, tx.sapling), tx.orchard)
}

/// The notes known after a block.
pub open spec fn block_known(known: Map<Seq<char>, u64>, txs: Seq<WalletTxView>) -> Map<
    Seq<char>,
    u64,
>
    decreases txs.len(),
{
    if txs.len() == 0 {
        known
    } else {
        tx_known(block_known(known, txs.drop_last()), txs.last())
    }
}

/// The spends of known notes among the nullifiers that one pool of a transaction reveals, each
/// with the value of the note.
pub open spec fn pool_spent(
    known: Map<Seq<char>, u64>,
    block: CompactBlockView,
    txid: Seq<u8>,
    nullifiers: Seq<Seq<u8>>,
    pool: Seq<char>,
) -> Seq<NoteView>
    decreases nullifiers.len(),
{
    if nullifiers.len() == 0 {
        Seq::empty()
    } else {
        let before = pool_spent(known, block, txid, nullifiers.drop_last(), pool);
        let key = hex_encoded(nullifiers.last());
        if known.contains_key(key) {
            before.push(note_in(block, txid, known[key], pool))
        } else {
            before
        }
    }
}

/// The nullifiers that a transaction's Orchard actions reveal.
pub open spec fn action_nullifiers(tx: CompactTxView) -> Seq<Seq<u8>> {
    tx.actions.map_values(|a: CompactOrchardActionView| a.nullifier)
}

/// The spends of known notes in a transaction, the Sapling ones first.
pub open spec fn tx_spent(
    known: Map<Seq<char>, u64>,
    block: CompactBlockView,
    tx: CompactTxView,
) -> Seq<NoteView> {
    pool_spent(known, block, tx.txid, tx.spends, "sapling"@) + pool_spent(
        known,
        block,
        tx.txid,
        action_nullifiers(tx),
        "orchard"@,
    )
}

/// The spends of known notes in a block, in the order of its transactions.
pub open spec fn block_spent(
    known: Map<Seq<char>, u64>,
    block: CompactBlockView,
    vtx: Seq<CompactTxView>,
) -> Seq<NoteView>
    decreases vtx.len(),
{
    if vtx.len() == 0 {
        Seq::empty()
    } else {
        block_spent(known, block, vtx.drop_last()) + tx_spent(known, block, vtx.last())
    }
}

/// The stages of a scan. Those that have settled the range hold its last height.
#[derive(Clone, Copy, Debug, PartialEq, Eq, Structural)]
pub enum ScanStage {
    Connecting,
    AwaitingTip,
    AwaitingTree(u64),
    AwaitingStream(u64),
    Streaming,
    Finished,
}

/// How much a scan went through.
#[derive(Clone, Copy, Debug, PartialEq, Eq, Structural)]
pub struct ScanCounts {
    pub blocks: u64,
    pub sapling_outputs: u64,
    pub orchard_actions: u64,
}

/// `a + b`, or the largest number of 64 bits where that is smaller.
pub open spec fn capped_sum(a: u64, b: nat) -> u64 {
    if a + b <= u64::MAX {
        (a + b) as u64
    } else {
        u64::MAX
    }
}

impl ScanCounts {
    /// The counts after one more block.
    pub open spec fn plus(self, vtx: Seq<CompactTxView>) -> ScanCounts {
        ScanCounts {
            blocks: capped_sum(self.blocks, 1),
            sapling_outputs: capped_sum(self.sapling_outputs, sapling_output_count(vtx)),
            orchard_actions: capped_sum(self.orchard_actions, orchard_action_count(vtx)),
        }
    }
}

/// A scan under way.
pub struct ScanRun {
    network: Network,
    keys: ScanningKeys<u32, (u32, Scope)>,
    from: u64,
    to: Option<u64>,
    max_scan_blocks: u64,
    stage: ScanStage,
    prior: Option<BlockMetadata>,
    received: Vec<Note>,
    spent: Vec<Note>,
    known: StringHashMap<u64>,
    scanned_to: u64,
    counts: ScanCounts,
}

pub struct ScanRunView {
    pub network: Network,
    /// The viewing keys, by account.
    pub accounts: Map<u32, UnifiedFullViewingKey>,
    pub from: u64,
    pub to: Option<u64>,
    pub max_scan_blocks: u64,
    pub stage: ScanStage,
    /// Where the chain stands before the next block.
    pub prior: Option<BlockMetadataView>,
    pub received: Seq<NoteView>,
    pub spent: Seq<NoteView>,
    /// The values of the notes received so far, by nullifier in hexadecimal.
    pub known: Map<Seq<char>, u64>,
    pub scanned_to: u64,
    pub counts: ScanCounts,
}

impl View for ScanRun {
    type V = ScanRunView;

    closed spec fn view(&self) -> ScanRunView {
        ScanRunView {
            network: self.network,
            accounts: accounts_of(self.keys),
            from: self.from,
            to: self.to,
            max_scan_blocks: self.max_scan_blocks,
            stage: self.stage,
            prior: prior_view(self.prior),
            received: note_views(self.received@),
            spent: note_views(self.spent@),
            known: self.known@,
            scanned_to: self.scanned_to,
            counts: self.counts,
        }
    }
}

/// The height before `height`, which is 0 for the first.
pub open spec fn before(height: u64) -> u64 {
    if height > 0 {
        (height - 1) as u64
    } else {
        0
    }
}

/// The last height of a scan: the one asked for, but not beyond the tip.
pub open spec fn scan_end(to: Option<u64>, tip: u64) -> u64 {
    match to {
        Some(t) if t < tip => t,
        _ => tip,
    }
}

/// The refusal of a range whose last height is `blocks` above its first.
pub open spec fn range_refusal(blocks: nat, max: nat) -> Seq<char> {
    "scan range too large ("@ + decimal(blocks) + " blocks; max "@ + decimal(max)
        + "). Use a more recent birthday height."@
}

/// The metadata that seeds a scan: what a tree state says of its block. Of the tree sizes it
/// keeps the low 32 bits.
pub open spec fn seed(state: TreeStateView) -> BlockMetadataView {
    BlockMetadataView {
        height: state.height as u32,
        hash: state_hash(state.hash)->0,
        sapling_tree_size: Some((tree_size(sapling_nodes(state)->0) % 0x1_0000_0000) as u32),
        orchard_tree_size: Some((tree_size(orchard_nodes(state)->0) % 0x1_0000_0000) as u32),
    }
}

/// What a reply leads to.
pub enum ScanStep {
    /// There is something to do next.
    Continue,
    /// The scan is complete.
    Done(ScanOutputView),
    /// The scan has failed.
    Fail(ScanErrorView),
}

impl ScanRunView {
    /// A scan of the given range before anything was done.
    pub open spec fn started(
        network: Network,
        ufvk: UnifiedFullViewingKey,
        from: u64,
        to: Option<u64>,
        max_scan_blocks: u64,
    ) -> ScanRunView {
        ScanRunView {
            network,
            accounts: map![0u32 => ufvk],
            from,
            to,
            max_scan_blocks,
            stage: ScanStage::Connecting,
            prior: None,
            received: Seq::empty(),
            spent: Seq::empty(),
            known: Map::empty(),
            scanned_to: before(from),
            counts: ScanCounts { blocks: 0, sapling_outputs: 0, orchard_actions: 0 },
        }
    }

    /// What the scan waits for.
    pub open spec fn awaited(self) -> ActionView {
        match self.stage {
            ScanStage::Connecting => ActionView::Connect,
            ScanStage::AwaitingTip => ActionView::LatestHeight,
            ScanStage::AwaitingTree(_) => ActionView::TreeState(before(self.from)),
            ScanStage::AwaitingStream(end) => ActionView::BlockRange(self.from, end),
            ScanStage::Streaming => ActionView::NextBlock,
            ScanStage::Finished => ActionView::Nothing,
        }
    }

    /// Whether the scan can take up a reply: tree states and blocks have to have the shape that
    /// reading them relies on.
    pub open spec fn accepts(self, reply: ReplyView) -> bool {
        match (self.stage, reply) {
            (ScanStage::AwaitingTree(_), ReplyView::TreeState(t)) => tree_state_readable(t),
            (ScanStage::Streaming, ReplyView::Block(b)) => {
                is_scannable(self.network, b, self.prior)
            },
            _ => true,
        }
    }

    pub open spec fn at(self, stage: ScanStage) -> ScanRunView {
        ScanRunView { stage, ..self }
    }

    /// The scan after it has ended: what it found has been handed out.
    pub open spec fn ended(self) -> ScanRunView {
        ScanRunView {
            stage: ScanStage::Finished,
            received: Seq::empty(),
            spent: Seq::empty(),
            ..self
        }
    }

    /// The scan after a block in which trial decryption found `found`.
    pub open spec fn absorbed(self, block: CompactBlockView, found: FindingsView) -> ScanRunView {
        let known = block_known(self.known, found.transactions);
        ScanRunView {
            prior: Some(found.metadata),
            received: self.received + block_received(block, found.transactions),
            spent: self.spent + block_spent(known, block, block.vtx),
            known,
            scanned_to: block.height,
            counts: self.counts.plus(block.vtx),
            ..self
        }
    }

    /// What the scan has found.
    pub open spec fn output(self) -> ScanOutputView {
        ScanOutputView {
            received: self.received,
            spent: self.spent,
            scanned_to_height: self.scanned_to,
        }
    }

    /// The range is settled once the tip is known. A range that starts beyond its end is empty;
    /// one that spans too many blocks is refused.
    pub open spec fn at_tip(self, tip: u64) -> (ScanRunView, ScanStep) {
        let end = scan_end(self.to, tip);
        if self.from > end {
            let nothing = ScanOutputView {
                received: Seq::empty(),
                spent: Seq::empty(),
                scanned_to_height: end,
            };
            (self.ended(), ScanStep::Done(nothing))
        } else if end - self.from >= self.max_scan_blocks {
            let why = range_refusal((end - self.from) as nat, self.max_scan_blocks as nat);
            (self.ended(), ScanStep::Fail(ScanErrorView::BadRequest(why)))
        } else if self.from > 0 {
            (self.at(ScanStage::AwaitingTree(end)), ScanStep::Continue)
        } else {
            (self.at(ScanStage::AwaitingStream(end)), ScanStep::Continue)
        }
    }

    /// The scan after a reply, and what the reply leads to. A reply that does not fit the stage
    /// ends the scan.
    pub open spec fn advanced(self, reply: ReplyView) -> (ScanRunView, ScanStep) {
        match (self.stage, reply) {
            (_, ReplyView::Failed) => (self.ended(), ScanStep::Fail(ScanErrorView::Upstream)),
            (ScanStage::Connecting, ReplyView::Connected) => {
                (self.at(ScanStage::AwaitingTip), ScanStep::Continue)
            },
            (ScanStage::AwaitingTip, ReplyView::Height(tip)) => self.at_tip(tip),
            (ScanStage::AwaitingTree(end), ReplyView::TreeState(t)) => if tree_state_valid(t) {
                let seeded = ScanRunView { prior: Some(seed(t)), ..self };
                (seeded.at(ScanStage::AwaitingStream(end)), ScanStep::Continue)
            } else {
                (self.ended(), ScanStep::Fail(ScanErrorView::Upstream))
            },
            (ScanStage::AwaitingStream(_), ReplyView::StreamOpened) => {
                (self.at(ScanStage::Streaming), ScanStep::Continue)
            },
            (ScanStage::Streaming, ReplyView::Block(b)) => {
                match scan_outcome(self.network, self.accounts, b, self.prior) {
                    Some(found) => (self.absorbed(b, found), ScanStep::Continue),
                    None => (self.ended(), ScanStep::Fail(ScanErrorView::Internal)),
                }
            },
            (ScanStage::Streaming, ReplyView::StreamEnded) => {
                (self.ended(), ScanStep::Done(self.output()))
            },
            _ => (self.ended(), ScanStep::Fail(ScanErrorView::Internal)),
        }
    }
}

/// Whether taking up `block` leads from one state of a scan to the next: the block is valid and
/// what trial decryption found is of the block.
pub open spec fn linked(before: ScanRunView, block: CompactBlockView, after: ScanRunView) -> bool {
    match scan_outcome(before.network, before.accounts, block, before.prior) {
        Some(found) => {
            &&& after == before.absorbed(block, found)
            &&& is_valid(before.network, block, before.prior)
            &&& scanned_follows(before.network, found, block, before.prior)
        },
        None => false,
    }
}

/// Whether the result of a step is what `step` says.
pub open spec fn reports(r: Result<Option<ScanOutput>, ScanError>, step: ScanStep) -> bool {
    match step {
        ScanStep::Continue => r matches Ok(None),
        ScanStep::Done(out) => r matches Ok(Some(o)) && o@ == out,
        ScanStep::Fail(why) => r matches Err(e) && e@ == why,
    }
}

/// Parses a viewing key of a network.
pub(crate) fn key_of_network(network: Network, ufvk: &str) -> (r: Result<
    UnifiedFullViewingKey,
    ScanError,
>)
    ensures
        r.ok() == decoded_ufvk(network, ufvk@),
        r matches Err(e) ==> e@ == ScanErrorView::BadRequest("invalid UFVK (ZIP-316)"@),
{
    match decode_ufvk(network, ufvk) {
        Ok(key) => Ok(key),
        Err(_) => Err(ScanError::BadRequest("invalid UFVK (ZIP-316)".to_owned())),
    }
}

/// Parses a viewing key of the configured network.
pub fn parse_ufvk(cfg: &Config, ufvk: &str) -> (r: Result<UnifiedFullViewingKey, ScanError>)
    ensures
        r.ok() == decoded_ufvk(network_named(cfg.network@), ufvk@),
        r matches Err(e) ==> e@ == ScanErrorView::BadRequest("invalid UFVK (ZIP-316)"@),
{
    key_of_network(network_for(cfg), ufvk)
}

/// Starts a scan of the heights from `from` to `to`, or to the tip, for what the viewing key
/// received and spent. The key itself is not kept.
pub fn scan_range(cfg: &Config, ufvk: &str, from: u64, to: Option<u64>) -> (r: Result<
    ScanRun,
    ScanError,
>)
    ensures
        r is Ok <==> decoded_ufvk(network_named(cfg.network@), ufvk@) is Some,
        r matches Ok(run) ==> run@ == ScanRunView::started(
            network_named(cfg.network@),
            decoded_ufvk(network_named(cfg.network@), ufvk@)->0,
            from,
            to,
            cfg.max_scan_blocks,
        ),
        r matches Err(e) ==> e@ == ScanErrorView::BadRequest("invalid UFVK (ZIP-316)"@),
{
    match parse_ufvk(cfg, ufvk) {
        Ok(key) => Ok(ScanRun::start(cfg, key, from, to)),
        Err(e) => Err(e),
    }
}

/// Appends the notes that one pool of a transaction paid to the wallet, and remembers their
/// nullifiers.
fn take_received(
    received: &mut Vec<Note>,
    known: &mut StringHashMap<u64>,
    block: &CompactBlock,
    txid: &[u8; 32],
    notes: &Vec<ReceivedNote>,
    pool: &str,
)
    ensures
        note_views(final(received)@) == note_views(old(received)@) + pool_received(
            block@,
            txid@,
            notes@,
            pool@,
        ),
        final(known)@ == notes_known(old(known)@, notes@),
{
    let ghost start = note_views(received@);
    let ghost start_known = known@;
    let ghost all = pool_received(block@, txid@, notes@, pool@);
    let mut i: usize = 0;
    assert(note_views(received@) =~= start + all.take(0));
    assert(notes@.take(0) =~= Seq::<ReceivedNote>::empty());
    while i < notes.len()
        invariant
            i <= notes@.len(),
            all == pool_received(block@, txid@, notes@, pool@),
            note_views(received@) == start + all.take(i as int),
            known@ == notes_known(start_known, notes@.take(i as int)),
        decreases notes@.len() - i,
    {
        let n: ReceivedNote = notes[i];
        let ghost had = received@;
        received.push(
            Note {
                value_zat: n.value_zat,
                height: block.height,
                time: block.time as u64,
                txid: hex_encode(txid.as_slice()),
                pool: pool.to_owned(),
            },
        );
        if let Some(nf) = n.nullifier {
            known.insert(hex_encode(nf.as_slice()), n.value_zat);
        }
        proof {
            let next = notes@.take(i + 1);
            assert(next.drop_last() =~= notes@.take(i as int));
            assert(next.last() == n);
            assert(received@.last()@ == all[i as int]);
            assert(note_views(received@) =~= note_views(had).push(all[i as int]));
            assert(all.take(i + 1) =~= all.take(i as int).push(all[i as int]));
            assert(note_views(received@) =~= start + all.take(i + 1));
        }
        i += 1;
    }
    assert(all.take(i as int) =~= all);
    assert(notes@.take(i as int) =~= notes@);
}

/// Appends the spends of known notes among the nullifiers that one pool of a transaction
/// reveals.
fn take_spent(
    spent: &mut Vec<Note>,
    known: &StringHashMap<u64>,
    block: &CompactBlock,
    txid: &Vec<u8>,
    nullifier: &Vec<u8>,
    pool: &str,
    Ghost(before): Ghost<Seq<Seq<u8>>>,
    Ghost(start): Ghost<Seq<NoteView>>,
)
    requires
        2 * txid@.len() <= isize::MAX,
        2 * nullifier@.len() <= isize::MAX,
        note_views(old(spent)@) == start + pool_spent(known@, block@, txid@, before, pool@),
    ensures
        note_views(final(spent)@) == start + pool_spent(
            known@,
            block@,
            txid@,
            before.push(nullifier@),
            pool@,
        ),
{
    let ghost had = spent@;
    assert(before.push(nullifier@).drop_last() =~= before);
    let key: String = hex_encode(nullifier.as_slice());
    if let Some(value) = known.get(key.as_str()) {
        spent.push(
            Note {
                value_zat: *value,
                height: block.height,
                time: block.time as u64,
                txid: hex_encode(txid.as_slice()),
                pool: pool.to_owned(),
            },
        );
        proof {
            let note = note_in(block@, txid@, known@[key@], pool@);
            assert(note_views(spent@) =~= note_views(had).push(note));
            assert(note_views(spent@) =~= start + pool_spent(
                known@,
                block@,
                txid@,
                before.push(nullifier@),
                pool@,
            ));
        }
    }
}

/// Whether the identifier and the nullifiers of a transaction fit in a string in hexadecimal.
pub open spec fn tx_writable(tx: CompactTxView) -> bool {
    &&& 2 * tx.txid.len() <= isize::MAX
    &&& forall|i: int|
        0 <= i < tx.spends.len() ==> 2 * (#[trigger] tx.spends[i]).len() <= isize::MAX
    &&& forall|i: int|
        0 <= i < tx.actions.len() ==> 2 * (#[trigger] tx.actions[i]).nullifier.len() <= isize::MAX
}

/// Appends the spends of known notes in a transaction.
fn take_tx_spent(
    spent: &mut Vec<Note>,
    known: &StringHashMap<u64>,
    block: &CompactBlock,
    tx: &CompactTx,
)
    requires
        tx_writable(tx@),
    ensures
        note_views(final(spent)@) == note_views(old(spent)@) + tx_spent(known@, block@, tx@),
{
    let ghost start = note_views(spent@);
    let ghost nfs = tx@.spends;
    let mut i: usize = 0;
    assert(nfs.take(0) =~= Seq::<Seq<u8>>::empty());
    assert(note_views(spent@) =~= start + pool_spent(
        known@,
        block@,
        tx.txid@,
        nfs.take(0),
        "sapling"@,
    ));
    while i < tx.spends.len()
        invariant
            i <= tx.spends@.len(),
            nfs == tx@.spends,
            tx_writable(tx@),
            note_views(spent@) == start + pool_spent(
                known@,
                block@,
                tx.txid@,
                nfs.take(i as int),
                "sapling"@,
            ),
        decreases tx.spends@.len() - i,
    {
        assert(nfs[i as int] == tx.spends@[i as int]@);
        take_spent(
            spent,
            known,
            block,
            &tx.txid,
            &tx.spends[i],
            "sapling",
            Ghost(nfs.take(i as int)),
            Ghost(start),
        );
        assert(nfs.take(i + 1) =~= nfs.take(i as int).push(nfs[i as int]));
        i += 1;
    }
    assert(nfs.take(i as int) =~= nfs);
    let ghost middle = note_views(spent@);
    let ghost acts = action_nullifiers(tx@);
    let mut j: usize = 0;
    assert(acts.take(0) =~= Seq::<Seq<u8>>::empty());
    assert(note_views(spent@) =~= middle + pool_spent(
        known@,
        block@,
        tx.txid@,
        acts.take(0),
        "orchard"@,
    ));
    while j < tx.actions.len()
        invariant
            j <= tx.actions@.len(),
            acts == action_nullifiers(tx@),
            tx_writable(tx@),
            note_views(spent@) == middle + pool_spent(
                known@,
                block@,
                tx.txid@,
                acts.take(j as int),
                "orchard"@,
            ),
        decreases tx.actions@.len() - j,
    {
        assert(tx@.actions[j as int] == tx.actions@[j as int]@);
        assert(acts[j as int] == tx.actions@[j as int].nullifier@);
        take_spent(
            spent,
            known,
            block,
            &tx.txid,
            &tx.actions[j].nullifier,
            "orchard",
            Ghost(acts.take(j as int)),
            Ghost(middle),
        );
        assert(acts.take(j + 1) =~= acts.take(j as int).push(acts[j as int]));
        j += 1;
    }
    assert(acts.take(j as int) =~= acts);
    assert(note_views(spent@) =~= start + tx_spent(known@, block@, tx@));
}

impl ScanCounts {
    /// Counts one more block.
    fn count(self, block: &CompactBlock) -> (r: ScanCounts)
        ensures
            r == self.plus(block@.vtx),
    {
        let mut outputs: u64 = self.sapling_outputs;
        let mut actions: u64 = self.orchard_actions;
        let ghost vtx = block@.vtx;
        let mut i: usize = 0;
        assert(vtx.take(0) =~= Seq::<CompactTxView>::empty());
        while i < block.vtx.len()
            invariant
                i <= block.vtx@.len(),
                vtx == block@.vtx,
                outputs == capped_sum(
                    self.sapling_outputs,
                    sapling_output_count(vtx.take(i as int)),
                ),
                actions == capped_sum(
                    self.orchard_actions,
                    orchard_action_count(vtx.take(i as int)),
                ),
            decreases block.vtx@.len() - i,
        {
            proof {
                let next = vtx.take(i + 1);
                assert(next.drop_last() =~= vtx.take(i as int));
                assert(next.last() == block.vtx@[i as int]@);
            }
            outputs = outputs.saturating_add(block.vtx[i].outputs.len() as u64);
            actions = actions.saturating_add(block.vtx[i].actions.len() as u64);
            i += 1;
        }
        assert(vtx.take(i as int) =~= vtx);
        ScanCounts {
            blocks: self.blocks.saturating_add(1),
            sapling_outputs: outputs,
            orchard_actions: actions,
        }
    }
}

impl ScanRun {
    /// Starts a scan for a viewing key that has been parsed.
    pub fn start(cfg: &Config, key: UnifiedFullViewingKey, from: u64, to: Option<u64>) -> (r:
        ScanRun)
        ensures
            r@ == ScanRunView::started(
                network_named(cfg.network@),
                key,
                from,
                to,
                cfg.max_scan_blocks,
            ),
    {
        let run = ScanRun {
            network: network_for(cfg),
            keys: scanning_keys(key),
            from,
            to,
            max_scan_blocks: cfg.max_scan_blocks,
            stage: ScanStage::Connecting,
            prior: None,
            received: Vec::new(),
            spent: Vec::new(),
            known: StringHashMap::new(),
            scanned_to: from.saturating_sub(1),
            counts: ScanCounts { blocks: 0, sapling_outputs: 0, orchard_actions: 0 },
        };
        assert(run@.received =~= Seq::empty());
        assert(run@.spent =~= Seq::empty());
        run
    }

    /// Takes up a block in which trial decryption found `found`: what the block paid to the
    /// wallet first, and then what it spent of everything known by now.
    pub fn absorb(&mut self, block: &CompactBlock, found: &Findings)
        requires
            forall|i: int| 0 <= i < block@.vtx.len() ==> tx_writable(#[trigger] block@.vtx[i]),
        ensures
            final(self)@ == old(self)@.absorbed(block@, found@),
    {
        let ghost start = self@;
        let ghost txs = found@.transactions;
        let mut i: usize = 0;
        assert(txs.take(0) =~= Seq::<WalletTxView>::empty());
        assert(self@.received =~= start.received + block_received(block@, txs.take(0)));
        while i < found.transactions.len()
            invariant
                i <= found.transactions@.len(),
                txs == found@.transactions,
                self@ == (ScanRunView {
                    received: start.received + block_received(block@, txs.take(i as int)),
                    known: block_known(start.known, txs.take(i as int)),
                    ..start
                }),
            decreases found.transactions@.len() - i,
        {
            let tx: &WalletTx = &found.transactions[i];
            let ghost had = self@;
            take_received(
                &mut self.received,
                &mut self.known,
                block,
                &tx.txid,
                &tx.sapling,
                "sapling",
            );
            take_received(
                &mut self.received,
                &mut self.known,
                block,
                &tx.txid,
                &tx.orchard,
                "orchard",
            );
            proof {
                let next = txs.take(i + 1);
                assert(next.drop_last() =~= txs.take(i as int));
                assert(next.last() == tx@);
                assert(self@.received =~= had.received + tx_received(block@, tx@));
                assert(self@.received =~= start.received + block_received(block@, next));
            }
            i += 1;
        }
        assert(txs.take(i as int) =~= txs);
        let ghost read = self@;
        let ghost vtx = block@.vtx;
        let mut j: usize = 0;
        assert(vtx.take(0) =~= Seq::<CompactTxView>::empty());
        assert(self@.spent =~= start.spent + block_spent(read.known, block@, vtx.take(0)));
        while j < block.vtx.len()
            invariant
                j <= block.vtx@.len(),
                vtx == block@.vtx,
                forall|k: int| 0 <= k < vtx.len() ==> tx_writable(#[trigger] vtx[k]),
                self@ == (ScanRunView {
                    spent: start.spent + block_spent(read.known, block@, vtx.take(j as int)),
                    ..read
                }),
            decreases block.vtx@.len() - j,
        {
            let ghost had = self@;
            assert(vtx[j as int] == block.vtx@[j as int]@);
            take_tx_spent(&mut self.spent, &self.known, block, &block.vtx[j]);
            proof {
                let next = vtx.take(j + 1);
                assert(next.drop_last() =~= vtx.take(j as int));
                assert(next.last() == vtx[j as int]);
                assert(self@.spent =~= start.spent + block_spent(read.known, block@, next));
            }
            j += 1;
        }
        assert(vtx.take(j as int) =~= vtx);
        self.prior = Some(found.metadata);
        self.scanned_to = block.height;
        self.counts = self.counts.count(block);
    }
}

/// The metadata that seeds a scan after the block of a chain position.
pub fn metadata_at(position: ChainPosition) -> (r: BlockMetadata)
    ensures
        r@ == (BlockMetadataView {
            height: position.height,
            hash: position.hash@,
            sapling_tree_size: Some((position.sapling_tree_size % 0x1_0000_0000) as u32),
            orchard_tree_size: Some((position.orchard_tree_size % 0x1_0000_0000) as u32),
        }),
{
    BlockMetadata {
        height: position.height,
        hash: position.hash,
        sapling_tree_size: Some((position.sapling_tree_size % 0x1_0000_0000) as u32),
        orchard_tree_size: Some((position.orchard_tree_size % 0x1_0000_0000) as u32),
    }
}

/// Where the chain stands at the end of the block before the first one, so that the first
/// scanned block gets the right note positions and with them the right nullifiers.
pub fn seed_metadata(state: &TreeState) -> (r: Result<BlockMetadata, ScanError>)
    requires
        tree_state_readable(state@),
    ensures
        r is Ok <==> tree_state_valid(state@),
        r matches Ok(m) ==> m@ == seed(state@),
        r matches Err(e) ==> e == ScanError::Upstream,
{
    match read_tree_state(state) {
        Ok(p) => Ok(metadata_at(p)),
        Err(_) => Err(ScanError::Upstream),
    }
}

/// The refusal of a range whose last height is `blocks` above its first.
fn refuse_range(blocks: u64, max: u64) -> (r: ScanError)
    ensures
        r@ == ScanErrorView::BadRequest(range_refusal(blocks as nat, max as nat)),
{
    let text: String = "scan range too large (".to_owned()
        .concat(decimal_text(blocks).as_str())
        .concat(" blocks; max ")
        .concat(decimal_text(max).as_str())
        .concat("). Use a more recent birthday height.");
    ScanError::BadRequest(text)
}

impl ScanRun {
    /// What to do next.
    pub fn pending(&self) -> (r: Action)
        ensures
            r@ == self@.awaited(),
    {
        match self.stage {
            ScanStage::Connecting => Action::Connect,
            ScanStage::AwaitingTip => Action::LatestHeight,
            ScanStage::AwaitingTree(_) => Action::TreeState(self.from.saturating_sub(1)),
            ScanStage::AwaitingStream(end) => Action::BlockRange(self.from, end),
            ScanStage::Streaming => Action::NextBlock,
            ScanStage::Finished => Action::Nothing,
        }
    }

    /// Whether the scan can take up a reply: see [`ScanRunView::accepts`].
    pub fn accepts(&self, reply: &Reply) -> (r: bool)
        ensures
            r == self@.accepts(reply@),
    {
        match (self.stage, reply) {
            (ScanStage::AwaitingTree(_), Reply::TreeState(t)) => t.readable(),
            (ScanStage::Streaming, Reply::Block(b)) => {
                b.scannable(self.network, &self.prior)
            },
            _ => true,
        }
    }

    /// How much the scan went through.
    pub fn counts(&self) -> (r: ScanCounts)
        ensures
            r == self@.counts,
    {
        self.counts
    }

    /// Ends the scan and hands out what it found.
    fn end(&mut self) -> (r: (Vec<Note>, Vec<Note>))
        ensures
            final(self)@ == old(self)@.ended(),
            note_views(r.0@) == old(self)@.received,
            note_views(r.1@) == old(self)@.spent,
    {
        let mut received: Vec<Note> = Vec::new();
        let mut spent: Vec<Note> = Vec::new();
        std::mem::swap(&mut received, &mut self.received);
        std::mem::swap(&mut spent, &mut self.spent);
        self.stage = ScanStage::Finished;
        assert(self@.received =~= Seq::empty());
        assert(self@.spent =~= Seq::empty());
        (received, spent)
    }

    /// Ends the scan with an error.
    fn fail(&mut self, why: ScanError) -> (r: Result<Option<ScanOutput>, ScanError>)
        ensures
            final(self)@ == old(self)@.ended(),
            r == Err::<Option<ScanOutput>, ScanError>(why),
    {
        let _ = self.end();
        Err(why)
    }

    /// Settles the range at the given tip.
    fn settle(&mut self, tip: u64) -> (r: Result<Option<ScanOutput>, ScanError>)
        ensures
            final(self)@ == old(self)@.at_tip(tip).0,
            reports(r, old(self)@.at_tip(tip).1),
    {
        let end: u64 = match self.to {
            Some(t) => if t < tip {
                t
            } else {
                tip
            },
            None => tip,
        };
        if self.from > end {
            let _ = self.end();
            let out = ScanOutput {
                received: Vec::new(),
                spent: Vec::new(),
                scanned_to_height: end,
            };
            assert(out@.received =~= Seq::empty());
            assert(out@.spent =~= Seq::empty());
            return Ok(Some(out));
        }
        if end - self.from >= self.max_scan_blocks {
            let why: ScanError = refuse_range(end - self.from, self.max_scan_blocks);
            return self.fail(why);
        }
        if self.from > 0 {
            self.stage = ScanStage::AwaitingTree(end);
        } else {
            self.stage = ScanStage::AwaitingStream(end);
        }
        Ok(None)
    }

    /// Takes the reply to the pending action. The output comes with the last reply; before that
    /// there is something to do next.
    pub fn advance(&mut self, reply: Reply) -> (r: Result<Option<ScanOutput>, ScanError>)
        requires
            old(self)@.accepts(reply@),
        ensures
            final(self)@ == old(self)@.advanced(reply@).0,
            reports(r, old(self)@.advanced(reply@).1),
            old(self)@.stage is Streaming ==> (reply@ matches ReplyView::Block(block) ==> {
                &&& r is Ok <==> is_valid(old(self)@.network, block, old(self)@.prior)
                &&& r is Ok ==> linked(old(self)@, block, final(self)@)
            }),
    {
        match (self.stage, reply) {
            (_, Reply::Failed) => self.fail(ScanError::Upstream),
            (ScanStage::Connecting, Reply::Connected) => {
                self.stage = ScanStage::AwaitingTip;
                Ok(None)
            },
            (ScanStage::AwaitingTip, Reply::Height(tip)) => self.settle(tip),
            (ScanStage::AwaitingTree(end), Reply::TreeState(t)) => match seed_metadata(&t) {
                Ok(m) => {
                    self.prior = Some(m);
                    self.stage = ScanStage::AwaitingStream(end);
                    Ok(None)
                },
                Err(e) => self.fail(e),
            },
            (ScanStage::AwaitingStream(_), Reply::StreamOpened) => {
                self.stage = ScanStage::Streaming;
                Ok(None)
            },
            (ScanStage::Streaming, Reply::Block(b)) => match scan(
                self.network,
                &self.keys,
                &b,
                &self.prior,
            ) {
                Some(found) => {
                    proof {
                        parsed_txs_are_readable(b@.vtx);
                    }
                    self.absorb(&b, &found);
                    Ok(None)
                },
                None => self.fail(ScanError::Internal),
            },
            (ScanStage::Streaming, Reply::StreamEnded) => {
                let scanned_to_height: u64 = self.scanned_to;
                let (received, spent) = self.end();
                Ok(Some(ScanOutput { received, spent, scanned_to_height }))
            },
            _ => self.fail(ScanError::Internal),
        }
    }

    /// [`ScanRun::advance`] with a reply that the scan can take up. `None` means that it cannot,
    /// and nothing has changed.
    pub fn offer(&mut self, reply: Reply) -> (r: Option<Result<Option<ScanOutput>, ScanError>>)
        ensures
            r is Some <==> old(self)@.accepts(reply@),
            r is None ==> final(self)@ == old(self)@,
            r matches Some(result) ==> final(self)@ == old(self)@.advanced(reply@).0 && reports(
                result,
                old(self)@.advanced(reply@).1,
            ),
            old(self)@.stage is Streaming ==> (reply@ matches ReplyView::Block(block) ==> (
            r matches Some(result) ==> {
                &&& result is Ok <==> is_valid(old(self)@.network, block, old(self)@.prior)
                &&& result is Ok ==> linked(old(self)@, block, final(self)@)
            })),
    {
        if self.accepts(&reply) {
            Some(self.advance(reply))
        } else {
            None
        }
    }
}

/// The sum of the values of some notes.
pub open spec fn total_value(notes: Seq<NoteView>) -> nat
    decreases notes.len(),
{
    if notes.len() == 0 {
        0
    } else {
        total_value(notes.drop_last()) + notes.last().value_zat as nat
    }
}

/// The sum of the values of some notes.
fn sum_notes(notes: &Vec<Note>) -> (r: u128)
    ensures
        r == total_value(note_views(notes@)),
{
    let ghost views = note_views(notes@);
    let mut sum: u128 = 0;
    let mut i: usize = 0;
    assert(views.take(0) =~= Seq::<NoteView>::empty());
    while i < notes.len()
        invariant
            i <= notes@.len(),
            views == note_views(notes@),
            sum == total_value(views.take(i as int)),
            sum <= i * 0xffff_ffff_ffff_ffff,
        decreases notes@.len() - i,
    {
        proof {
            let next = views.take(i + 1);
            assert(next.drop_last() =~= views.take(i as int));
            assert(next.last() == notes@[i as int]@);
        }
        sum += notes[i].value_zat as u128;
        i += 1;
    }
    assert(views.take(i as int) =~= views);
    sum
}

/// What the notes of a scan add up to, in zatoshis.
#[derive(Clone, Copy, Debug, PartialEq, Eq, Structural)]
pub struct Totals {
    pub received_zat: u128,
    pub spent_zat: u128,
    /// What is left of the received notes; 0 where more was spent than received.
    pub net_zat: u128,
}

impl ScanOutput {
    /// What the notes add up to.
    pub fn totals(&self) -> (r: Totals)
        ensures
            r.received_zat == total_value(self@.received),
            r.spent_zat == total_value(self@.spent),
            r.net_zat == if r.received_zat >= r.spent_zat {
                r.received_zat - r.spent_zat
            } else {
                0
            },
    {
        let received_zat: u128 = sum_notes(&self.received);
        let spent_zat: u128 = sum_notes(&self.spent);
        Totals { received_zat, spent_zat, net_zat: received_zat.saturating_sub(spent_zat) }
    }
}

/// Why a request for a range is refused before the tip is known, if it is.
pub open spec fn request_refusal(from: u64, to: Option<u64>, max_scan_blocks: u64) -> Option<
    Seq<char>,
> {
    match to {
        Some(t) => if t < from {
            Some("to_height < from_height"@)
        } else if t - from >= max_scan_blocks {
            Some("range exceeds max_scan_blocks"@)
        } else {
            None
        },
        None => None,
    }
}

/// Refuses a range that ends before it starts or spans too many blocks. A range without an end
/// is settled once the tip is known.
pub fn check_request(from: u64, to: Option<u64>, max_scan_blocks: u64) -> (r: Result<
    (),
    ScanError,
>)
    ensures
        match request_refusal(from, to, max_scan_blocks) {
            Some(why) => r matches Err(e) && e@ == ScanErrorView::BadRequest(why),
            None => r is Ok,
        },
{
    if let Some(t) = to {
        if t < from {
            return Err(ScanError::BadRequest("to_height < from_height".to_owned()));
        }
        if t - from >= max_scan_blocks {
            return Err(ScanError::BadRequest("range exceeds max_scan_blocks".to_owned()));
        }
    }
    Ok(())
}

} // verus!

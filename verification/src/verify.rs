//! Finding a spend that carries a challenge memo.
//!
//! Whoever can spend from a wallet can put a memo of the challenger's choice on a transaction; a
//! viewing key alone cannot. The range is scanned for spends, and the full transaction of each
//! is fetched and decrypted. Memos are matched and never handed out.

use crate::backend::{
    branch_at, branch_id, decoded_ufvk, decrypted_memos, memo_text, parsed_transaction,
    read_transaction, text_of_memo, transaction_memos,
};
use crate::chain::{CompactBlockView, Network};
use crate::config::{network_for, network_named, Config};
use crate::encoding::{hex_decode, hex_decoded, hex_encoded, hex_round_trip};
use crate::error::{ScanError, ScanErrorView};
use crate::history::{failures_are_coarse, note_of};
use crate::protocol::{Action, ActionView, Reply, ReplyView};
use crate::scan::{
    key_of_network, note_views, range_refusal, scan_end, scan_range, Note, NoteView, ScanRun,
    ScanRunView, ScanStep,
};
use crate::text::same_text;
use vstd::prelude::*;
use vstd::string::*;

verus! {

/// Whether a memo is text that equals `expected`.
pub open spec fn memo_is(memo: Seq<u8>, expected: Seq<char>) -> bool {
    text_of_memo(memo) matches Some(text) && text == expected
}

/// Whether one of the memos is the expected text.
pub open spec fn some_memo_is(memos: Seq<Seq<u8>>, expected: Seq<char>) -> bool {
    exists|i: int| 0 <= i < memos.len() && memo_is(#[trigger] memos[i], expected)
}

/// The low 32 bits of a height.
pub open spec fn height_bits(height: u64) -> u32 {
    (height % 0x1_0000_0000) as u32
}

/// Whether a transaction that was mined at `height` carries the expected memo on an output that
/// the viewing key can read. A key or a transaction that cannot be parsed carries nothing.
pub open spec fn memo_found(
    network: Network,
    ufvk: Seq<char>,
    raw_tx: Seq<u8>,
    height: u64,
    expected: Seq<char>,
) -> bool {
    let mined = height_bits(height);
    match (decoded_ufvk(network, ufvk), parsed_transaction(raw_tx, branch_at(network, mined))) {
        (Some(key), Some(tx)) => some_memo_is(decrypted_memos(network, mined, tx, key), expected),
        _ => false,
    }
}

/// Whether one of the memos is the expected text.
pub fn any_memo_is(memos: &Vec<[u8; 512]>, expected: &str) -> (r: bool)
    ensures
        r == some_memo_is(memos@.map_values(|m: [u8; 512]| m@), expected@),
{
    let ghost all = memos@.map_values(|m: [u8; 512]| m@);
    let mut i: usize = 0;
    while i < memos.len()
        invariant
            i <= memos@.len(),
            all == memos@.map_values(|m: [u8; 512]| m@),
            forall|k: int| 0 <= k < i ==> !memo_is(#[trigger] all[k], expected@),
        decreases memos@.len() - i,
    {
        assert(all[i as int] == memos@[i as int]@);
        if let Some(text) = memo_text(&memos[i]) {
            if same_text(text.as_str(), expected) {
                assert(memo_is(all[i as int], expected@));
                return true;
            }
        }
        i += 1;
    }
    false
}

/// [`memo_matches`] on a network.
fn carries_memo(
    network: Network,
    ufvk: &str,
    raw_tx: &[u8],
    height: u64,
    expected: &str,
) -> (r: bool)
    ensures
        r == memo_found(network, ufvk@, raw_tx@, height, expected@),
{
    let key = match key_of_network(network, ufvk) {
        Ok(key) => key,
        Err(_) => return false,
    };
    let mined: u32 = (height % 0x1_0000_0000) as u32;
    match read_transaction(raw_tx, branch_id(network, mined)) {
        Ok(tx) => any_memo_is(&transaction_memos(network, mined, &tx, key), expected),
        Err(_) => false,
    }
}

/// Decrypts the shielded outputs of a full transaction and tells whether one of them carries
/// the expected memo. Only text memos are compared. Anything that cannot be parsed or decrypted
/// gives `false`.
pub fn memo_matches(cfg: &Config, ufvk: &str, raw_tx: &[u8], height: u64, expected: &str) -> (r:
    bool)
    ensures
        r == memo_found(network_named(cfg.network@), ufvk@, raw_tx@, height, expected@),
{
    carries_memo(network_for(cfg), ufvk, raw_tx, height, expected)
}

/// A spend that carried the memo.
#[derive(Debug)]
pub struct SpendMatch {
    /// The transaction's identifier in hexadecimal.
    pub txid: String,
    pub height: u64,
}

pub struct SpendMatchView {
    pub txid: Seq<char>,
    pub height: u64,
}

impl View for SpendMatch {
    type V = SpendMatchView;

    open spec fn view(&self) -> SpendMatchView {
        SpendMatchView { txid: self.txid@, height: self.height }
    }
}

/// The stages of a verification.
#[derive(Clone, Copy, Debug, PartialEq, Eq, Structural)]
pub enum VerifyStage {
    /// The range is scanned.
    Scanning,
    /// The scan is complete; the transactions are fetched over a connection of their own.
    Connecting,
    /// The transaction of the spend with this index is fetched.
    Fetching(usize),
    Finished,
}

/// A verification under way.
pub struct VerifyRun<'a> {
    network: Network,
    ufvk: &'a str,
    expected: &'a str,
    scan: ScanRun,
    spent: Vec<Note>,
    stage: VerifyStage,
}

pub struct VerifyRunView {
    pub network: Network,
    pub ufvk: Seq<char>,
    pub expected: Seq<char>,
    pub scan: ScanRunView,
    /// The spends that the scan found.
    pub spent: Seq<NoteView>,
    pub stage: VerifyStage,
}

impl<'a> View for VerifyRun<'a> {
    type V = VerifyRunView;

    closed spec fn view(&self) -> VerifyRunView {
        VerifyRunView {
            network: self.network,
            ufvk: self.ufvk@,
            expected: self.expected@,
            scan: self.scan@,
            spent: note_views(self.spent@),
            stage: self.stage,
        }
    }
}

/// The bytes of a transaction identifier in hexadecimal; none where it is not hexadecimal.
pub open spec fn txid_bytes(txid: Seq<char>) -> Seq<u8> {
    match hex_decoded(txid) {
        Some(bytes) => bytes,
        None => Seq::empty(),
    }
}

/// What a reply leads to.
pub enum VerifyStep {
    /// There is something to do next.
    Continue,
    /// The verification is complete.
    Done(Option<SpendMatchView>),
    /// The verification has failed.
    Fail(ScanErrorView),
}

impl VerifyRunView {
    /// A verification before anything was done.
    pub open spec fn started(
        network: Network,
        ufvk: Seq<char>,
        expected: Seq<char>,
        scan: ScanRunView,
    ) -> VerifyRunView {
        VerifyRunView {
            network,
            ufvk,
            expected,
            scan,
            spent: Seq::empty(),
            stage: VerifyStage::Scanning,
        }
    }

    /// The spend whose transaction is being fetched is one of those found.
    pub open spec fn wf(self) -> bool {
        self.stage matches VerifyStage::Fetching(i) ==> i < self.spent.len()
    }

    /// What the verification waits for.
    pub open spec fn awaited(self) -> ActionView {
        match self.stage {
            VerifyStage::Scanning => self.scan.awaited(),
            VerifyStage::Connecting => ActionView::Connect,
            VerifyStage::Fetching(i) => ActionView::Transaction(
                txid_bytes(self.spent[i as int].txid),
            ),
            VerifyStage::Finished => ActionView::Nothing,
        }
    }

    /// Whether the verification can take up a reply: see [`ScanRunView::accepts`].
    pub open spec fn accepts(self, reply: ReplyView) -> bool {
        self.stage == VerifyStage::Scanning ==> self.scan.accepts(reply)
    }

    pub open spec fn at(self, stage: VerifyStage) -> VerifyRunView {
        VerifyRunView { stage, ..self }
    }

    /// Goes on with the spend of index `i`; where there is none, no spend carried the memo.
    pub open spec fn fetching(self, i: usize) -> (VerifyRunView, VerifyStep) {
        if i < self.spent.len() {
            (self.at(VerifyStage::Fetching(i)), VerifyStep::Continue)
        } else {
            (self.at(VerifyStage::Finished), VerifyStep::Done(None))
        }
    }

    /// Goes on from the spend of index `i`, whose transaction carries the memo or does not.
    pub open spec fn judged(self, i: usize, carries: bool) -> (VerifyRunView, VerifyStep) {
        if carries {
            let s = self.spent[i as int];
            let found = SpendMatchView { txid: s.txid, height: s.height };
            (self.at(VerifyStage::Finished), VerifyStep::Done(Some(found)))
        } else {
            self.fetching((i + 1) as usize)
        }
    }

    /// The verification after a reply, and what the reply leads to. A reply that does not fit
    /// the stage ends the verification.
    pub open spec fn advanced(self, reply: ReplyView) -> (VerifyRunView, VerifyStep) {
        match (self.stage, reply) {
            (VerifyStage::Scanning, _) => {
                let (scan, step) = self.scan.advanced(reply);
                let next = VerifyRunView { scan, ..self };
                match step {
                    ScanStep::Continue => (next, VerifyStep::Continue),
                    ScanStep::Done(out) => (
                        VerifyRunView { spent: out.spent, stage: VerifyStage::Connecting, ..next },
                        VerifyStep::Continue,
                    ),
                    ScanStep::Fail(why) => {
                        (next.at(VerifyStage::Finished), VerifyStep::Fail(why))
                    },
                }
            },
            (_, ReplyView::Failed) => {
                (self.at(VerifyStage::Finished), VerifyStep::Fail(ScanErrorView::Upstream))
            },
            (VerifyStage::Connecting, ReplyView::Connected) => self.fetching(0),
            (VerifyStage::Fetching(i), ReplyView::Transaction(raw)) => {
                let height = self.spent[i as int].height;
                self.judged(i, memo_found(self.network, self.ufvk, raw, height, self.expected))
            },
            _ => (self.at(VerifyStage::Finished), VerifyStep::Fail(ScanErrorView::Internal)),
        }
    }
}

/// How far a verification has come.
#[derive(Debug)]
pub enum Progress {
    /// There is something to do next.
    Pending,
    /// The verification is complete, with the first spend that carried the memo, if any did.
    Complete(Option<SpendMatch>),
}

/// Whether the result of a step is what `step` says.
pub open spec fn verify_reports(r: Result<Progress, ScanError>, step: VerifyStep) -> bool {
    match step {
        VerifyStep::Continue => r matches Ok(Progress::Pending),
        VerifyStep::Done(None) => r matches Ok(Progress::Complete(None)),
        VerifyStep::Done(Some(m)) => r matches Ok(Progress::Complete(Some(s))) && s@ == m,
        VerifyStep::Fail(why) => r matches Err(e) && e@ == why,
    }
}

/// Starts to look for a spend between `from` and `to`, or the tip, that carries the expected
/// memo.
pub fn verify_spend<'a>(
    cfg: &Config,
    ufvk: &'a str,
    expected_memo: &'a str,
    from: u64,
    to: Option<u64>,
) -> (r: Result<VerifyRun<'a>, ScanError>)
    ensures
        r is Ok <==> decoded_ufvk(network_named(cfg.network@), ufvk@) is Some,
        r matches Ok(run) ==> {
            &&& run@ == VerifyRunView::started(
                network_named(cfg.network@),
                ufvk@,
                expected_memo@,
                ScanRunView::started(
                    network_named(cfg.network@),
                    decoded_ufvk(network_named(cfg.network@), ufvk@)->0,
                    from,
                    to,
                    cfg.max_scan_blocks,
                ),
            )
            &&& run@.wf()
        },
        r matches Err(e) ==> e@ == ScanErrorView::BadRequest("invalid UFVK (ZIP-316)"@),
{
    match scan_range(cfg, ufvk, from, to) {
        Ok(scan) => {
            let run = VerifyRun {
                network: network_for(cfg),
                ufvk,
                expected: expected_memo,
                scan,
                spent: Vec::new(),
                stage: VerifyStage::Scanning,
            };
            assert(run@.spent =~= Seq::empty());
            Ok(run)
        },
        Err(e) => Err(e),
    }
}

impl<'a> VerifyRun<'a> {
    /// What to do next.
    pub fn pending(&self) -> (r: Action)
        requires
            self@.wf(),
        ensures
            r@ == self@.awaited(),
    {
        match self.stage {
            VerifyStage::Scanning => self.scan.pending(),
            VerifyStage::Connecting => Action::Connect,
            VerifyStage::Fetching(i) => {
                assert(self@.spent[i as int] == self.spent@[i as int]@);
                match hex_decode(self.spent[i].txid.as_str()) {
                    Ok(id) => Action::Transaction(id),
                    Err(_) => {
                        let none: Vec<u8> = Vec::new();
                        assert(none@ =~= Seq::empty());
                        Action::Transaction(none)
                    },
                }
            },
            VerifyStage::Finished => Action::Nothing,
        }
    }

    /// Whether the verification can take up a reply: see [`VerifyRunView::accepts`].
    pub fn accepts(&self, reply: &Reply) -> (r: bool)
        ensures
            r == self@.accepts(reply@),
    {
        match self.stage {
            VerifyStage::Scanning => self.scan.accepts(reply),
            _ => true,
        }
    }

    /// How many spends the scan has found, once it is complete.
    pub fn spends(&self) -> (r: usize)
        ensures
            r == self@.spent.len(),
    {
        self.spent.len()
    }

    /// Goes on with the spend of index `i`.
    fn fetch(&mut self, i: usize) -> (r: Result<Progress, ScanError>)
        ensures
            final(self)@ == old(self)@.fetching(i).0,
            verify_reports(r, old(self)@.fetching(i).1),
    {
        if i < self.spent.len() {
            self.stage = VerifyStage::Fetching(i);
            Ok(Progress::Pending)
        } else {
            self.stage = VerifyStage::Finished;
            Ok(Progress::Complete(None))
        }
    }

    /// Takes up whether the transaction being fetched carries the memo.
    pub fn judge(&mut self, carries: bool) -> (r: Result<Progress, ScanError>)
        requires
            old(self)@.wf(),
            old(self)@.stage is Fetching,
        ensures
            final(self)@.wf(),
            old(self)@.stage matches VerifyStage::Fetching(i) && final(self)@ == old(self)@.judged(
                i,
                carries,
            ).0 && verify_reports(r, old(self)@.judged(i, carries).1),
    {
        match self.stage {
            VerifyStage::Fetching(i) => {
                assert(self@.spent[i as int] == self.spent@[i as int]@);
                if carries {
                    let txid: String = self.spent[i].txid.as_str().to_owned();
                    let height: u64 = self.spent[i].height;
                    self.stage = VerifyStage::Finished;
                    Ok(Progress::Complete(Some(SpendMatch { txid, height })))
                } else {
                    assert(i < self.spent.len());
                    self.fetch(i + 1)
                }
            },
            _ => Err(ScanError::Internal),
        }
    }

    /// Ends the verification with an error.
    fn fail(&mut self, why: ScanError) -> (r: Result<Progress, ScanError>)
        ensures
            final(self)@ == old(self)@.at(VerifyStage::Finished),
            r == Err::<Progress, ScanError>(why),
    {
        self.stage = VerifyStage::Finished;
        Err(why)
    }

    /// Takes the reply to the pending action.
    pub fn advance(&mut self, reply: Reply) -> (r: Result<Progress, ScanError>)
        requires
            old(self)@.wf(),
            old(self)@.accepts(reply@),
        ensures
            final(self)@.wf(),
            final(self)@ == old(self)@.advanced(reply@).0,
            verify_reports(r, old(self)@.advanced(reply@).1),
    {
        match (self.stage, reply) {
            (VerifyStage::Scanning, reply) => match self.scan.advance(reply) {
                Ok(None) => Ok(Progress::Pending),
                Ok(Some(out)) => {
                    self.spent = out.spent;
                    self.stage = VerifyStage::Connecting;
                    Ok(Progress::Pending)
                },
                Err(e) => self.fail(e),
            },
            (_, Reply::Failed) => self.fail(ScanError::Upstream),
            (VerifyStage::Connecting, Reply::Connected) => self.fetch(0),
            (VerifyStage::Fetching(i), Reply::Transaction(raw)) => {
                assert(self@.spent[i as int] == self.spent@[i as int]@);
                let carries: bool = carries_memo(
                    self.network,
                    self.ufvk,
                    raw.as_slice(),
                    self.spent[i].height,
                    self.expected,
                );
                self.judge(carries)
            },
            _ => self.fail(ScanError::Internal),
        }
    }

    /// [`VerifyRun::advance`] with a reply that the verification can take up. `None` means that
    /// it cannot, and nothing has changed.
    pub fn offer(&mut self, reply: Reply) -> (r: Option<Result<Progress, ScanError>>)
        requires
            old(self)@.wf(),
        ensures
            final(self)@.wf(),
            r is Some <==> old(self)@.accepts(reply@),
            r is None ==> final(self)@ == old(self)@,
            r matches Some(result) ==> final(self)@ == old(self)@.advanced(reply@).0
                && verify_reports(result, old(self)@.advanced(reply@).1),
    {
        if self.accepts(&reply) {
            Some(self.advance(reply))
        } else {
            None
        }
    }
}

/// A key or a transaction that cannot be parsed never yields a match.
pub proof fn unreadable_input_never_matches(
    network: Network,
    ufvk: Seq<char>,
    raw_tx: Seq<u8>,
    height: u64,
    expected: Seq<char>,
)
    ensures
        decoded_ufvk(network, ufvk) is None ==> !memo_found(
            network,
            ufvk,
            raw_tx,
            height,
            expected,
        ),
        parsed_transaction(raw_tx, branch_at(network, height_bits(height))) is None ==> !memo_found(
            network,
            ufvk,
            raw_tx,
            height,
            expected,
        ),
{
}

/// A match is only ever reported of a spend that the scan found, and only once its full
/// transaction has been seen to carry the memo.
pub proof fn matches_carry_the_memo(run: VerifyRunView, reply: ReplyView)
    ensures
        run.advanced(reply).1 matches VerifyStep::Done(Some(found)) ==> {
            &&& run.stage matches VerifyStage::Fetching(i)
            &&& reply matches ReplyView::Transaction(raw)
            &&& memo_found(
                run.network,
                run.ufvk,
                raw,
                run.spent[i as int].height,
                run.expected,
            )
            &&& found.txid == run.spent[i as int].txid
            &&& found.height == run.spent[i as int].height
        },
{
}

/// The verification after it was handed some transactions, one after the other.
pub open spec fn fetched(run: VerifyRunView, raws: Seq<Seq<u8>>) -> VerifyRunView
    decreases raws.len(),
{
    if raws.len() == 0 {
        run
    } else {
        fetched(run, raws.drop_last()).advanced(ReplyView::Transaction(raws.last())).0
    }
}

/// The spends are looked at in order, and the first one whose transaction carries the memo is
/// reported. Where none does, there is no match.
pub proof fn first_match_is_reported(run: VerifyRunView, raws: Seq<Seq<u8>>)
    requires
        run.stage == VerifyStage::Fetching(0),
        0 < raws.len() <= run.spent.len() <= usize::MAX,
        forall|j: int|
            0 <= j < raws.len() - 1 ==> !memo_found(
                run.network,
                run.ufvk,
                #[trigger] raws[j],
                run.spent[j].height,
                run.expected,
            ),
    ensures
        ({
            let k = raws.len() - 1;
            let s = run.spent[k];
            let step = fetched(run, raws.drop_last()).advanced(
                ReplyView::Transaction(raws.last()),
            ).1;
            &&& fetched(run, raws.drop_last()) == run.at(VerifyStage::Fetching(k as usize))
            &&& step == if memo_found(
                run.network,
                run.ufvk,
                raws.last(),
                s.height,
                run.expected,
            ) {
                VerifyStep::Done(Some(SpendMatchView { txid: s.txid, height: s.height }))
            } else if raws.len() == run.spent.len() {
                VerifyStep::Done(None)
            } else {
                VerifyStep::Continue
            }
        }),
    decreases raws.len(),
{
    if raws.len() > 1 {
        let init = raws.drop_last();
        assert forall|j: int| 0 <= j < init.len() - 1 implies !memo_found(
            run.network,
            run.ufvk,
            #[trigger] init[j],
            run.spent[j].height,
            run.expected,
        ) by {
            assert(init[j] == raws[j]);
        }
        first_match_is_reported(run, init);
        let j = raws.len() - 2;
        assert(init.last() == raws[j]);
        assert(!memo_found(run.network, run.ufvk, raws[j], run.spent[j].height, run.expected));
    } else {
        assert(fetched(run, raws.drop_last()) == run);
    }
}

/// Without spends there is no match, and nothing is fetched.
pub proof fn no_spends_no_match(run: VerifyRunView)
    requires
        run.stage == VerifyStage::Connecting,
        run.spent.len() == 0,
    ensures
        run.advanced(ReplyView::Connected).1 == VerifyStep::Done(None),
{
}

/// What is fetched for a spend is the transaction of the block that the spend was found in.
pub proof fn the_spending_transaction_is_fetched(
    run: VerifyRunView,
    i: usize,
    block: CompactBlockView,
)
    requires
        run.stage == VerifyStage::Fetching(i),
        i < run.spent.len(),
        note_of(block, run.spent[i as int]),
    ensures
        exists|j: int|
            0 <= j < block.vtx.len() && run.awaited() == ActionView::Transaction(
                (#[trigger] block.vtx[j]).txid,
            ) && run.spent[i as int].txid == hex_encoded(block.vtx[j].txid),
{
    let note = run.spent[i as int];
    let j = choose|j: int|
        0 <= j < block.vtx.len() && note.txid == hex_encoded((#[trigger] block.vtx[j]).txid);
    hex_round_trip(block.vtx[j].txid);
    assert(run.awaited() == ActionView::Transaction(block.vtx[j].txid));
}

/// Whatever makes a verification fail, the error tells nothing about the key or the memo.
pub proof fn verify_failures_are_coarse(run: VerifyRunView, reply: ReplyView)
    ensures
        run.advanced(reply).1 matches VerifyStep::Fail(why) ==> {
            ||| why == ScanErrorView::Upstream
            ||| why == ScanErrorView::Internal
            ||| reply matches ReplyView::Height(tip) && why == ScanErrorView::BadRequest(
                range_refusal(
                    (scan_end(run.scan.to, tip) - run.scan.from) as nat,
                    run.scan.max_scan_blocks as nat,
                ),
            )
        },
{
    failures_are_coarse(run.scan, reply);
}

} // verus!

use orchard::keys::Scope;
use orchard::note::{ExtractedNoteCommitment, RandomSeed, Rho};
use orchard::note_encryption::OrchardNoteEncryption;
use rand_core::OsRng;
use sapling_crypto::note_encryption::{sapling_note_encryption, SaplingDomain};
use sapling_crypto::Rseed;
use zcash_keys::keys::{UnifiedFullViewingKey, UnifiedSpendingKey};
use zcash_note_encryption::Domain;
use zcash_protocol::consensus;
use zcash_scanner::chain::{
    CompactBlock, CompactOrchardAction, CompactSaplingOutput, CompactTx, TreeState,
};
use zcash_scanner::config::Config;
use zcash_scanner::error::ScanError;
use zcash_scanner::protocol::{Action, Reply};
use zcash_scanner::scan::{parse_ufvk, scan_range, ScanOutput, ScanRun};
use zcash_scanner::verify::{memo_matches, verify_spend, Progress, SpendMatch, VerifyRun};

const FIRST: u64 = 2_000_000;
const TIP: u64 = 2_000_010;

fn config(network: &str) -> Config {
    Config {
        bind_addr: "0.0.0.0:0".to_string(),
        lightwalletd_url: "https://example:443".to_string(),
        shared_secret: "test-secret".to_string(),
        network: network.to_string(),
        max_scan_blocks: 100,
    }
}

fn viewing_key(seed: u8) -> UnifiedFullViewingKey {
    UnifiedSpendingKey::from_seed(
        &consensus::Network::MainNetwork,
        &[seed; 32],
        zip32::AccountId::ZERO,
    )
    .unwrap()
    .to_unified_full_viewing_key()
}

fn encoded(key: &UnifiedFullViewingKey) -> String {
    key.encode(&consensus::Network::MainNetwork)
}

fn padded(memo: &[u8]) -> [u8; 512] {
    let mut bytes = [0u8; 512];
    bytes[..memo.len()].copy_from_slice(memo);
    bytes
}

/// An Orchard action that pays `value` to the wallet, as the parts of a full action, and the
/// nullifier that will mark the note as spent.
struct Payment {
    revealed: [u8; 32],
    cmx: [u8; 32],
    epk: [u8; 32],
    ciphertext: Vec<u8>,
    nullifier: [u8; 32],
}

fn orchard_payment(
    key: &UnifiedFullViewingKey,
    scope: Scope,
    value: u64,
    revealed: [u8; 32],
    memo: &[u8],
) -> Payment {
    let fvk = key.orchard().unwrap();
    let rho = Rho::from_bytes(&revealed).unwrap();
    let rseed = RandomSeed::from_bytes([9; 32], &rho).unwrap();
    let value = orchard::value::NoteValue::from_raw(value);
    let note = orchard::Note::from_parts(fvk.address_at(0u32, scope), value, rho, rseed).unwrap();
    let encryption = OrchardNoteEncryption::new(None, note, padded(memo));
    Payment {
        revealed,
        cmx: ExtractedNoteCommitment::from(note.commitment()).to_bytes(),
        epk: orchard::note_encryption::OrchardDomain::epk_bytes(encryption.epk()).0,
        ciphertext: encryption.encrypt_note_plaintext().to_vec(),
        nullifier: note.nullifier(fvk).to_bytes(),
    }
}

fn compact_action(payment: &Payment) -> CompactOrchardAction {
    CompactOrchardAction {
        nullifier: payment.revealed.to_vec(),
        cmx: payment.cmx.to_vec(),
        ephemeral_key: payment.epk.to_vec(),
        ciphertext: payment.ciphertext[..52].to_vec(),
    }
}

/// An action that pays someone else and reveals the given nullifier.
fn foreign_action(revealed: [u8; 32]) -> CompactOrchardAction {
    compact_action(&orchard_payment(&viewing_key(77), Scope::External, 5, revealed, b""))
}

fn sapling_payment(
    key: &UnifiedFullViewingKey,
    value: u64,
    position: u64,
) -> (CompactSaplingOutput, [u8; 32]) {
    let dfvk = key.sapling().unwrap();
    let value = sapling_crypto::value::NoteValue::from_raw(value);
    let rseed = Rseed::AfterZip212([3; 32]);
    let note = sapling_crypto::Note::from_parts(dfvk.default_address().1, value, rseed);
    let nullifier = note.nf(&dfvk.to_nk(zip32::Scope::External), position).0;
    let encryption = sapling_note_encryption(None, note.clone(), padded(b""), &mut OsRng);
    let output = CompactSaplingOutput {
        cmu: note.cmu().to_bytes().to_vec(),
        ephemeral_key: SaplingDomain::epk_bytes(encryption.epk()).0.to_vec(),
        ciphertext: encryption.encrypt_note_plaintext()[..52].to_vec(),
    };
    (output, nullifier)
}

fn field(n: u8) -> [u8; 32] {
    let mut bytes = [0u8; 32];
    bytes[0] = n;
    bytes
}

fn tx(id: u8) -> CompactTx {
    CompactTx { index: 1, txid: vec![id; 32], spends: vec![], outputs: vec![], actions: vec![] }
}

/// The block number `n` after the seed, whose hash is made of the byte `n`.
fn block(n: u8, vtx: Vec<CompactTx>) -> CompactBlock {
    CompactBlock {
        height: FIRST - 1 + n as u64,
        hash: vec![n; 32],
        prev_hash: vec![n - 1; 32],
        time: 1_700_000_000 + n as u32,
        header: vec![],
        vtx,
        chain_metadata: None,
    }
}

fn seed_state() -> TreeState {
    TreeState {
        height: FIRST - 1,
        hash: "00".repeat(32),
        sapling_tree: "000000".to_string(),
        orchard_tree: "000000".to_string(),
    }
}

fn step(run: &mut ScanRun, reply: Reply) -> Result<Option<ScanOutput>, ScanError> {
    assert!(run.accepts(&reply));
    run.advance(reply)
}

/// A scan that waits for its first block.
fn streaming(ufvk: &str) -> ScanRun {
    let mut run = scan_range(&config("main"), ufvk, FIRST, None).unwrap();
    assert!(matches!(run.pending(), Action::Connect));
    assert!(step(&mut run, Reply::Connected).unwrap().is_none());
    assert!(matches!(run.pending(), Action::LatestHeight));
    assert!(step(&mut run, Reply::Height(TIP)).unwrap().is_none());
    assert!(matches!(run.pending(), Action::TreeState(h) if h == FIRST - 1));
    assert!(step(&mut run, Reply::TreeState(seed_state())).unwrap().is_none());
    assert!(matches!(run.pending(), Action::BlockRange(a, b) if a == FIRST && b == TIP));
    assert!(step(&mut run, Reply::StreamOpened).unwrap().is_none());
    assert!(matches!(run.pending(), Action::NextBlock));
    run
}

fn take(run: &mut ScanRun, block: CompactBlock) {
    assert!(step(run, Reply::Block(block)).unwrap().is_none());
    assert!(matches!(run.pending(), Action::NextBlock));
}

fn finish(run: &mut ScanRun) -> ScanOutput {
    let out = step(run, Reply::StreamEnded).unwrap().unwrap();
    assert!(matches!(run.pending(), Action::Nothing));
    out
}

#[test]
fn viewing_keys_of_the_network_parse() {
    let text = encoded(&viewing_key(1));
    assert!(parse_ufvk(&config("main"), &text).is_ok());
    assert_eq!(encoded(&parse_ufvk(&config("main"), &text).unwrap()), text);
    assert!(matches!(
        parse_ufvk(&config("test"), &text),
        Err(ScanError::BadRequest(m)) if m == "invalid UFVK (ZIP-316)"
    ));
}

#[test]
fn received_and_spent_notes_are_found() {
    let key = viewing_key(1);
    let mut run = streaming(&encoded(&key));

    let orchard = orchard_payment(&key, Scope::External, 70_000, field(1), b"");
    let change = orchard_payment(&key, Scope::Internal, 500, field(2), b"");
    let (output, sapling_nullifier) = sapling_payment(&key, 30_000, 0);
    let mut first = tx(0xa1);
    first.outputs.push(output);
    first.actions.push(foreign_action(field(3)));
    first.actions.push(compact_action(&orchard));
    let mut second = tx(0xa2);
    second.index = 2;
    second.actions.push(compact_action(&change));
    take(&mut run, block(1, vec![first, second]));

    let mut third = tx(0xb1);
    third.spends.push(vec![7; 32]);
    third.spends.push(sapling_nullifier.to_vec());
    third.actions.push(foreign_action(orchard.nullifier));
    take(&mut run, block(2, vec![third]));

    let counts = run.counts();
    assert_eq!(counts.blocks, 2);
    assert_eq!(counts.sapling_outputs, 1);
    assert_eq!(counts.orchard_actions, 4);

    let out = finish(&mut run);
    assert_eq!(out.scanned_to_height, FIRST + 1);

    let received: Vec<_> = out
        .received
        .iter()
        .map(|n| (n.value_zat, n.height, n.time, n.txid.clone(), n.pool.as_str()))
        .collect();
    assert_eq!(
        received,
        vec![
            (30_000, FIRST, 1_700_000_001, "a1".repeat(32), "sapling"),
            (70_000, FIRST, 1_700_000_001, "a1".repeat(32), "orchard"),
            (500, FIRST, 1_700_000_001, "a2".repeat(32), "orchard"),
        ]
    );
    let spent: Vec<_> = out
        .spent
        .iter()
        .map(|n| (n.value_zat, n.height, n.time, n.txid.clone(), n.pool.as_str()))
        .collect();
    assert_eq!(
        spent,
        vec![
            (30_000, FIRST + 1, 1_700_000_002, "b1".repeat(32), "sapling"),
            (70_000, FIRST + 1, 1_700_000_002, "b1".repeat(32), "orchard"),
        ]
    );
    let totals = out.totals();
    assert_eq!(totals.received_zat, 100_500);
    assert_eq!(totals.spent_zat, 100_000);
    assert_eq!(totals.net_zat, 500);
}

#[test]
fn note_positions_count_the_outputs_before() {
    let key = viewing_key(1);
    let mut run = streaming(&encoded(&key));
    let (foreign, _) = sapling_payment(&viewing_key(77), 1, 0);
    let (output, nullifier) = sapling_payment(&key, 10, 3);
    let mut a = tx(1);
    a.outputs = vec![foreign.clone(), foreign.clone()];
    take(&mut run, block(1, vec![a]));
    let mut b = tx(2);
    b.outputs = vec![foreign, output];
    take(&mut run, block(2, vec![b]));
    let mut c = tx(3);
    c.spends.push(nullifier.to_vec());
    take(&mut run, block(3, vec![c]));
    let out = finish(&mut run);
    assert_eq!(out.received.len(), 1);
    assert_eq!(out.spent.len(), 1);
    assert_eq!(out.spent[0].txid, "03".repeat(32));
}

#[test]
fn notes_can_be_spent_in_the_block_that_pays_them() {
    let key = viewing_key(1);
    let mut run = streaming(&encoded(&key));
    let payment = orchard_payment(&key, Scope::External, 42, field(1), b"");
    let mut a = tx(1);
    a.actions.push(foreign_action(payment.nullifier));
    let mut b = tx(2);
    b.index = 2;
    b.actions.push(compact_action(&payment));
    take(&mut run, block(1, vec![a, b]));
    let out = finish(&mut run);
    assert_eq!(out.spent.len(), 1);
    assert_eq!(out.spent[0].txid, "01".repeat(32));
    assert_eq!(out.spent[0].value_zat, 42);
}

#[test]
fn other_wallets_find_nothing() {
    let key = viewing_key(1);
    let payment = orchard_payment(&key, Scope::External, 42, field(1), b"");
    let mut run = streaming(&encoded(&viewing_key(2)));
    let mut a = tx(1);
    a.actions.push(compact_action(&payment));
    take(&mut run, block(1, vec![a]));
    let mut b = tx(2);
    b.actions.push(foreign_action(payment.nullifier));
    take(&mut run, block(2, vec![b]));
    let out = finish(&mut run);
    assert!(out.received.is_empty() && out.spent.is_empty());
    assert_eq!(out.scanned_to_height, FIRST + 1);
    assert_eq!(out.totals().net_zat, 0);
}

#[test]
fn blocks_have_to_follow_each_other() {
    let mut gap = streaming(&encoded(&viewing_key(1)));
    assert!(matches!(step(&mut gap, Reply::Block(block(2, vec![]))), Err(ScanError::Internal)));
    assert!(matches!(gap.pending(), Action::Nothing));

    let mut fork = streaming(&encoded(&viewing_key(1)));
    let mut stray = block(1, vec![]);
    stray.prev_hash = vec![5; 32];
    assert!(matches!(step(&mut fork, Reply::Block(stray)), Err(ScanError::Internal)));
}

/// The bytes of a transaction of version 5 with one Orchard action.
fn raw_transaction(payment: &Payment) -> Vec<u8> {
    let mut raw = Vec::new();
    raw.extend(0x8000_0005u32.to_le_bytes());
    raw.extend(0x26a7_270au32.to_le_bytes());
    raw.extend(0xc2d6_d0b4u32.to_le_bytes());
    raw.extend([0u8; 8]);
    raw.extend([0u8; 4]);
    raw.push(1);
    raw.extend(payment.epk);
    raw.extend(payment.revealed);
    raw.extend(payment.epk);
    raw.extend(payment.cmx);
    raw.extend(payment.epk);
    raw.extend(&payment.ciphertext);
    raw.extend([0u8; 80]);
    raw.push(3);
    raw.extend([0u8; 8]);
    raw.extend([0u8; 32]);
    raw.push(0);
    raw.extend([0u8; 64]);
    raw.extend([0u8; 64]);
    raw
}

fn raw_with_memo(key: &UnifiedFullViewingKey, memo: &[u8]) -> Vec<u8> {
    raw_transaction(&orchard_payment(key, Scope::External, 1, field(1), memo))
}

#[test]
fn memos_have_to_equal_the_expected_text() {
    let key = viewing_key(1);
    let text = encoded(&key);
    let cfg = config("main");
    let raw = raw_with_memo(&key, b"challenge 17\n");
    assert!(memo_matches(&cfg, &text, &raw, FIRST, "challenge 17\n"));
    assert!(!memo_matches(&cfg, &text, &raw, FIRST, "challenge 17"));
    assert!(!memo_matches(&cfg, &text, &raw, FIRST, " challenge 17\n"));
    assert!(!memo_matches(&cfg, &text, &raw, FIRST, "challenge 1"));
    assert!(!memo_matches(&cfg, &text, &raw, FIRST, ""));
}

#[test]
fn memos_need_the_right_key_and_bytes() {
    let key = viewing_key(1);
    let raw = raw_with_memo(&key, b"challenge");
    assert!(memo_matches(&config("main"), &encoded(&key), &raw, FIRST, "challenge"));
    assert!(!memo_matches(&config("main"), &encoded(&viewing_key(2)), &raw, FIRST, "challenge"));
    assert!(!memo_matches(&config("test"), &encoded(&key), &raw, FIRST, "challenge"));
    assert!(!memo_matches(&config("main"), "not-a-ufvk", &raw, FIRST, "challenge"));
    let cut = &raw[..raw.len() - 1];
    assert!(!memo_matches(&config("main"), &encoded(&key), cut, FIRST, "challenge"));
    assert!(!memo_matches(&config("main"), &encoded(&key), &[], FIRST, ""));
}

#[test]
fn memos_that_are_no_text_never_match() {
    let key = viewing_key(1);
    let text = encoded(&key);
    let cfg = config("main");
    let empty_memo = raw_with_memo(&key, &[0xf6]);
    assert!(!memo_matches(&cfg, &text, &empty_memo, FIRST, ""));
    let arbitrary = raw_with_memo(&key, b"\xffchallenge");
    assert!(!memo_matches(&cfg, &text, &arbitrary, FIRST, "challenge"));
    let not_utf8 = raw_with_memo(&key, b"challenge\xc3");
    assert!(!memo_matches(&cfg, &text, &not_utf8, FIRST, "challenge"));
    let blank = raw_with_memo(&key, b"");
    assert!(memo_matches(&cfg, &text, &blank, FIRST, ""));
    assert!(!memo_matches(&cfg, &text, &blank, FIRST, " "));
}

/// A verification that has found two spends and waits for the transaction of the first.
fn fetching<'a>(key: &UnifiedFullViewingKey, text: &'a str) -> VerifyRun<'a> {
    let one = orchard_payment(key, Scope::External, 1, field(1), b"");
    let two = orchard_payment(key, Scope::External, 2, field(2), b"");
    let mut pay = tx(0xa1);
    pay.actions = vec![compact_action(&one), compact_action(&two)];
    let mut first = tx(0xb1);
    first.actions.push(foreign_action(one.nullifier));
    let mut second = tx(0xb2);
    second.actions.push(foreign_action(two.nullifier));
    let replies = [
        Reply::Connected,
        Reply::Height(TIP),
        Reply::TreeState(seed_state()),
        Reply::StreamOpened,
        Reply::Block(block(1, vec![pay])),
        Reply::Block(block(2, vec![first])),
        Reply::Block(block(3, vec![second])),
        Reply::StreamEnded,
        Reply::Connected,
    ];
    let mut run =
        verify_spend(&config("main"), text, "challenge", FIRST, Some(FIRST + 2)).unwrap();
    for reply in replies {
        if let Action::BlockRange(a, b) = run.pending() {
            assert_eq!((a, b), (FIRST, FIRST + 2));
        }
        assert!(run.accepts(&reply));
        assert!(matches!(run.advance(reply), Ok(Progress::Pending)));
    }
    assert_eq!(run.spends(), 2);
    run
}

/// Runs a verification over two spends whose transactions carry the given memos.
fn verify_two(memos: [&[u8]; 2]) -> (Option<SpendMatch>, Vec<Vec<u8>>) {
    let key = viewing_key(1);
    let text = encoded(&key);
    let mut run = fetching(&key, &text);
    let mut asked = Vec::new();
    loop {
        match run.pending() {
            Action::Transaction(id) => asked.push(id),
            other => panic!("{other:?}"),
        }
        let raw = raw_with_memo(&key, memos[asked.len() - 1]);
        if let Progress::Complete(found) = run.advance(Reply::Transaction(raw)).unwrap() {
            assert!(matches!(run.pending(), Action::Nothing));
            return (found, asked);
        }
    }
}

#[test]
fn first_spend_with_the_memo_is_reported() {
    let (found, asked) = verify_two([b"challenge", b"challenge"]);
    let found = found.unwrap();
    assert_eq!(found.txid, "b1".repeat(32));
    assert_eq!(found.height, FIRST + 1);
    assert_eq!(asked, vec![vec![0xb1; 32]]);
}

#[test]
fn later_spends_are_looked_at_too() {
    let (found, asked) = verify_two([b"something else", b"challenge"]);
    let found = found.unwrap();
    assert_eq!(found.txid, "b2".repeat(32));
    assert_eq!(found.height, FIRST + 2);
    assert_eq!(asked, vec![vec![0xb1; 32], vec![0xb2; 32]]);
}

#[test]
fn spends_without_the_memo_give_no_match() {
    let (found, asked) = verify_two([b"no", b"neither"]);
    assert!(found.is_none());
    assert_eq!(asked.len(), 2);
}

#[test]
fn verdicts_lead_to_the_next_spend_or_the_end() {
    let key = viewing_key(1);
    let text = encoded(&key);
    let mut run = fetching(&key, &text);
    assert!(matches!(run.judge(false), Ok(Progress::Pending)));
    assert!(matches!(run.pending(), Action::Transaction(id) if id == vec![0xb2; 32]));
    match run.judge(true) {
        Ok(Progress::Complete(Some(found))) => assert_eq!(found.txid, "b2".repeat(32)),
        other => panic!("{other:?}"),
    }

    let mut run = fetching(&key, &text);
    assert!(matches!(run.judge(false), Ok(Progress::Pending)));
    assert!(matches!(run.judge(false), Ok(Progress::Complete(None))));
    assert!(matches!(run.pending(), Action::Nothing));
}

#[test]
fn lost_transactions_are_upstream_errors() {
    let key = viewing_key(1);
    let text = encoded(&key);
    let mut run = fetching(&key, &text);
    assert!(matches!(run.advance(Reply::Failed), Err(ScanError::Upstream)));
    let mut run = fetching(&key, &text);
    assert!(matches!(run.advance(Reply::Height(1)), Err(ScanError::Internal)));
}

#[test]
fn parsed_keys_start_scans_too() {
    let mut run = ScanRun::start(&config("main"), viewing_key(1), 61, None);
    assert!(step(&mut run, Reply::Connected).unwrap().is_none());
    let out = step(&mut run, Reply::Height(60)).unwrap().unwrap();
    assert_eq!(out.scanned_to_height, 60);
}

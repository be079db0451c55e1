use zcash_keys::keys::UnifiedSpendingKey;
use zcash_protocol::consensus;
use zcash_scanner::backend::{ChainPosition, Findings, ReceivedNote, WalletTx};
use zcash_scanner::chain::{
    BlockMetadata, ChainMetadata, CompactBlock, CompactOrchardAction, CompactSaplingOutput,
    CompactTx, Network, TreeState,
};
use zcash_scanner::config::Config;
use zcash_scanner::error::ScanError;
use zcash_scanner::protocol::{Action, Reply};
use zcash_scanner::scan::{
    check_request, metadata_at, parse_ufvk, scan_range, seed_metadata, Note, ScanOutput, ScanRun,
};
use zcash_scanner::verify::{any_memo_is, memo_matches, verify_spend, Progress};

fn test_cfg(network: &str) -> Config {
    Config {
        bind_addr: "0.0.0.0:0".to_string(),
        lightwalletd_url: "https://example:443".to_string(),
        shared_secret: "test-secret".to_string(),
        network: network.to_string(),
        max_scan_blocks: 100,
    }
}

fn ufvk() -> String {
    let network = consensus::Network::MainNetwork;
    UnifiedSpendingKey::from_seed(&network, &[1; 32], zip32::AccountId::ZERO)
        .unwrap()
        .to_unified_full_viewing_key()
        .encode(&network)
}

fn run(from: u64, to: Option<u64>) -> ScanRun {
    let mut run = scan_range(&test_cfg("main"), &ufvk(), from, to).unwrap();
    assert!(run.advance(Reply::Connected).unwrap().is_none());
    assert!(matches!(run.pending(), Action::LatestHeight));
    run
}

fn tx() -> CompactTx {
    CompactTx { index: 0, txid: vec![6; 32], spends: vec![], outputs: vec![], actions: vec![] }
}

fn action(nullifier: Vec<u8>) -> CompactOrchardAction {
    CompactOrchardAction {
        nullifier,
        cmx: vec![1; 32],
        ephemeral_key: vec![2; 32],
        ciphertext: vec![3; 52],
    }
}

fn output(cmu: Vec<u8>) -> CompactSaplingOutput {
    CompactSaplingOutput { cmu, ephemeral_key: vec![2; 32], ciphertext: vec![3; 52] }
}

fn block(height: u64, vtx: Vec<CompactTx>) -> CompactBlock {
    CompactBlock {
        height,
        hash: vec![1; 32],
        prev_hash: vec![0; 32],
        time: 17,
        header: vec![],
        vtx,
        chain_metadata: None,
    }
}

fn prior(height: u32) -> Option<BlockMetadata> {
    Some(BlockMetadata {
        height,
        hash: [0; 32],
        sapling_tree_size: Some(0),
        orchard_tree_size: Some(0),
    })
}

fn state(sapling_tree: &str, orchard_tree: &str) -> TreeState {
    TreeState {
        height: 1_999_999,
        hash: "ab".repeat(32),
        sapling_tree: sapling_tree.to_string(),
        orchard_tree: orchard_tree.to_string(),
    }
}

#[test]
fn parse_ufvk_rejects_garbage() {
    let cfg = test_cfg("main");
    assert!(parse_ufvk(&cfg, "not-a-ufvk").is_err());
    assert!(parse_ufvk(&cfg, "").is_err());
}

#[test]
fn memo_matches_is_false_on_invalid_input() {
    let cfg = test_cfg("main");
    let bad_ufvk = "not-a-ufvk";
    assert!(!memo_matches(&cfg, bad_ufvk, &[], 1_000_000, "memo"));
    assert!(!memo_matches(&cfg, bad_ufvk, &[0x00, 0x01, 0x02], 1_000_000, "memo"));
}

#[test]
fn invalid_keys_are_bad_requests() {
    let cfg = test_cfg("main");
    let expected = "invalid UFVK (ZIP-316)";
    assert!(matches!(
        scan_range(&cfg, "not-a-ufvk", 1, None),
        Err(ScanError::BadRequest(m)) if m == expected
    ));
    assert!(matches!(
        verify_spend(&cfg, "", "memo", 1, None),
        Err(ScanError::BadRequest(m)) if m == expected
    ));
}

#[test]
fn requests_are_checked_against_the_limit() {
    let refusal = |from, to, max| match check_request(from, Some(to), max) {
        Ok(()) => String::new(),
        Err(ScanError::BadRequest(m)) => m,
        Err(other) => panic!("{other:?}"),
    };
    assert!(check_request(10, None, 0).is_ok());
    assert_eq!(refusal(10, 10, 1), "");
    assert_eq!(refusal(10, 14, 5), "");
    assert_eq!(refusal(10, 9, 5), "to_height < from_height");
    assert_eq!(refusal(10, 15, 5), "range exceeds max_scan_blocks");
    assert_eq!(refusal(10, 10, 0), "range exceeds max_scan_blocks");
    assert_eq!(refusal(1, u64::MAX, u64::MAX), "");
    assert_eq!(refusal(0, u64::MAX, u64::MAX), "range exceeds max_scan_blocks");
}

#[test]
fn admitted_requests_are_not_refused_at_any_tip() {
    assert!(check_request(500, Some(599), 100).is_ok());
    for tip in [0, 499, 500, 550, 599, 600, u64::MAX] {
        assert!(run(500, Some(599)).advance(Reply::Height(tip)).is_ok());
    }
}

#[test]
fn ranges_end_at_the_tip() {
    let mut to_tip = run(50, None);
    assert!(to_tip.advance(Reply::Height(60)).unwrap().is_none());
    assert!(matches!(to_tip.pending(), Action::TreeState(49)));

    let mut from_start = run(0, Some(1000));
    assert!(from_start.advance(Reply::Height(60)).unwrap().is_none());
    assert!(matches!(from_start.pending(), Action::BlockRange(0, 60)));

    let mut bounded = run(0, Some(7));
    assert!(bounded.advance(Reply::Height(60)).unwrap().is_none());
    assert!(matches!(bounded.pending(), Action::BlockRange(0, 7)));
}

#[test]
fn ranges_beyond_the_tip_are_empty() {
    let mut scan = run(61, None);
    let out = scan.advance(Reply::Height(60)).unwrap().unwrap();
    assert!(out.received.is_empty() && out.spent.is_empty());
    assert_eq!(out.scanned_to_height, 60);
    assert!(matches!(scan.pending(), Action::Nothing));

    let out = run(9, Some(3)).advance(Reply::Height(60)).unwrap().unwrap();
    assert_eq!(out.scanned_to_height, 3);
}

#[test]
fn long_ranges_are_refused() {
    assert!(run(0, None).advance(Reply::Height(99)).unwrap().is_none());
    assert!(matches!(run(0, None).advance(Reply::Height(100)), Err(ScanError::BadRequest(_))));
    assert!(matches!(run(7, Some(107)).advance(Reply::Height(500)), Err(ScanError::BadRequest(_))));
    assert!(run(7, Some(106)).advance(Reply::Height(500)).unwrap().is_none());
    let mut scan = run(0, None);
    match scan.advance(Reply::Height(1_234_567)) {
        Err(ScanError::BadRequest(m)) => assert_eq!(
            m,
            "scan range too large (1234567 blocks; max 100). Use a more recent birthday height."
        ),
        other => panic!("{other:?}"),
    }
    assert!(matches!(scan.pending(), Action::Nothing));
}

#[test]
fn failures_are_upstream_errors_at_every_stage() {
    let mut connecting = scan_range(&test_cfg("main"), &ufvk(), 0, None).unwrap();
    assert!(matches!(connecting.advance(Reply::Failed), Err(ScanError::Upstream)));
    assert!(matches!(connecting.pending(), Action::Nothing));

    assert!(matches!(run(0, None).advance(Reply::Failed), Err(ScanError::Upstream)));

    let mut opening = run(0, None);
    assert!(opening.advance(Reply::Height(5)).is_ok());
    assert!(matches!(opening.advance(Reply::Failed), Err(ScanError::Upstream)));

    let mut streaming = run(0, None);
    assert!(streaming.advance(Reply::Height(5)).is_ok());
    assert!(streaming.advance(Reply::StreamOpened).is_ok());
    assert!(matches!(streaming.advance(Reply::Failed), Err(ScanError::Upstream)));
}

#[test]
fn unfit_replies_end_the_scan() {
    let mut scan = run(0, None);
    assert!(scan.accepts(&Reply::StreamOpened));
    assert!(matches!(scan.advance(Reply::StreamOpened), Err(ScanError::Internal)));
    assert!(matches!(scan.pending(), Action::Nothing));
    assert!(matches!(scan.advance(Reply::Connected), Err(ScanError::Internal)));
}

#[test]
fn streams_without_blocks_reach_the_height_before() {
    let mut scan = run(0, None);
    assert!(scan.advance(Reply::Height(5)).is_ok());
    assert!(scan.advance(Reply::StreamOpened).is_ok());
    assert_eq!(scan.advance(Reply::StreamEnded).unwrap().unwrap().scanned_to_height, 0);

    let mut scan = run(2_000_000, None);
    assert!(scan.advance(Reply::Height(2_000_005)).is_ok());
    assert!(scan.advance(Reply::TreeState(state("000000", "000000"))).unwrap().is_none());
    assert!(scan.advance(Reply::StreamOpened).is_ok());
    assert_eq!(scan.advance(Reply::StreamEnded).unwrap().unwrap().scanned_to_height, 1_999_999);
}

#[test]
fn scans_can_start_at_the_first_block() {
    let mut scan = run(0, None);
    assert!(scan.advance(Reply::Height(5)).is_ok());
    assert!(scan.advance(Reply::StreamOpened).is_ok());
    let genesis = Reply::Block(block(0, vec![tx()]));
    assert!(scan.accepts(&genesis));
    assert!(scan.advance(genesis).unwrap().is_none());
    let mut second = block(1, vec![]);
    second.prev_hash = vec![1; 32];
    assert!(scan.advance(Reply::Block(second)).unwrap().is_none());
    assert_eq!(scan.counts().blocks, 2);
    assert_eq!(scan.advance(Reply::StreamEnded).unwrap().unwrap().scanned_to_height, 1);
}

#[test]
fn tree_sizes_that_contradict_the_block_fail() {
    let mut scan = run(2_000_000, None);
    assert!(scan.advance(Reply::Height(2_000_005)).is_ok());
    assert!(scan.advance(Reply::TreeState(state("000000", "000000"))).is_ok());
    assert!(scan.advance(Reply::StreamOpened).is_ok());
    let mut wrong = block(2_000_000, vec![]);
    wrong.prev_hash = vec![0xab; 32];
    wrong.chain_metadata = Some(ChainMetadata {
        sapling_commitment_tree_size: 9,
        orchard_commitment_tree_size: 0,
    });
    assert!(matches!(scan.advance(Reply::Block(wrong)), Err(ScanError::Internal)));
}

fn node() -> String {
    format!("01{}", "00".repeat(31))
}

#[test]
fn tree_states_seed_the_note_positions() {
    let one = format!("01{}0000", node());
    let three = format!("01{}000101{}", node(), node());
    let seed = seed_metadata(&state(&one, &three)).unwrap();
    assert_eq!(seed.height, 1_999_999);
    assert_eq!(seed.hash, [0xab; 32]);
    assert_eq!(seed.sapling_tree_size, Some(1));
    assert_eq!(seed.orchard_tree_size, Some(3));

    let empty = seed_metadata(&state("000000", "")).unwrap();
    assert_eq!(empty.orchard_tree_size, Some(0));
}

#[test]
fn unreadable_tree_states_are_upstream_errors() {
    for bad in ["zz", "01", "0", "000001"] {
        let given = state(bad, "000000");
        assert!(given.readable());
        assert!(matches!(seed_metadata(&given), Err(ScanError::Upstream)));
    }
    let mut short_hash = state("000000", "000000");
    short_hash.hash = "ab".to_string();
    assert!(matches!(seed_metadata(&short_hash), Err(ScanError::Upstream)));
}

#[test]
fn trees_without_a_first_leaf_have_no_other_node() {
    assert!(state("000000", "000000").readable());
    assert!(state("0000020000", "000000").readable());
    assert!(!state(&format!("0001{}00", node()), "000000").readable());
    assert!(!state("000000", &format!("00000101{}", node())).readable());
    assert!(state("", "").readable());

    let mut scan = run(2_000_000, None);
    assert!(scan.advance(Reply::Height(2_000_005)).is_ok());
    assert!(!scan.accepts(&Reply::TreeState(state(&format!("0001{}00", node()), "000000"))));
    assert!(scan.accepts(&Reply::TreeState(state("000000", "000000"))));
}

#[test]
fn tree_sizes_count_the_filled_nodes() {
    let size = |tree: String| {
        let given = state(&tree, &tree);
        assert!(given.readable());
        let seed = seed_metadata(&given).unwrap();
        assert_eq!(seed.sapling_tree_size, seed.orchard_tree_size);
        seed.sapling_tree_size.unwrap()
    };
    let filled = format!("01{}", node());
    assert_eq!(size(format!("{filled}{filled}00")), 2);
    assert_eq!(size(format!("{filled}{filled}02{filled}{filled}")), 8);
    assert_eq!(size(format!("{filled}000300{filled}00")), 5);
    assert_eq!(size(format!("{filled}0001{filled}ffff")), 3);
    assert_eq!(size("00000300000099".to_string()), 0);
    let top = "00".repeat(30);
    assert_eq!(size(format!("{filled}001f{top}{filled}")), 0x8000_0001);
    let all = filled.repeat(31);
    assert_eq!(size(format!("{filled}{filled}1f{all}")), 0);
    assert_eq!(size(format!("{filled}001f{all}")), 0xffff_ffff);
}

#[test]
fn trees_are_looked_at_only_as_far_as_needed() {
    let unsound = format!("000101{}00", "00".repeat(31));
    let invalid = ["0001", "000100", "02", "000020", "0000fd2000", "01", "000001"];
    assert!(!state(&unsound, "").readable());
    assert!(!state("", &unsound).readable());
    for tree in invalid {
        let given = state(tree, &unsound);
        assert!(given.readable());
        assert!(matches!(seed_metadata(&given), Err(ScanError::Upstream)));
        let given = state("", tree);
        assert!(given.readable());
        assert!(matches!(seed_metadata(&given), Err(ScanError::Upstream)));
    }
    let mut no_hash = state(&unsound, &unsound);
    no_hash.hash = "xy".repeat(32);
    assert!(no_hash.readable());
    assert!(matches!(seed_metadata(&no_hash), Err(ScanError::Upstream)));
    let mut too_high = state(&unsound, &unsound);
    too_high.height = 0x1_0000_0000;
    assert!(too_high.readable());
    assert!(matches!(seed_metadata(&too_high), Err(ScanError::Upstream)));
}

#[test]
fn tree_nodes_are_elements_of_their_field() {
    let large = "00".repeat(31) + "50";
    let tree = format!("01{large}0000");
    assert!(seed_metadata(&state(&tree, "")).is_ok());
    assert!(state("", &tree).readable());
    assert!(seed_metadata(&state("", &tree)).is_err());
    let larger = format!("01{}0000", "00".repeat(31) + "74");
    assert!(seed_metadata(&state(&larger, "")).is_err());
}

#[test]
fn hashes_of_tree_states_are_reversed() {
    let mut given = state("", "");
    given.hash = format!("{}ff", "0A".repeat(31));
    let seed = seed_metadata(&given).unwrap();
    assert_eq!(seed.hash[0], 0xff);
    assert_eq!(seed.hash[1..], [0x0a; 31]);
}

#[test]
fn tree_sizes_keep_their_low_bits() {
    let seed = metadata_at(ChainPosition {
        height: 7,
        hash: [4; 32],
        sapling_tree_size: 0x1_0000_0002,
        orchard_tree_size: 0xffff_ffff,
    });
    assert_eq!(seed.height, 7);
    assert_eq!(seed.hash, [4; 32]);
    assert_eq!(seed.sapling_tree_size, Some(2));
    assert_eq!(seed.orchard_tree_size, Some(0xffff_ffff));
}

#[test]
fn blocks_are_checked_before_they_are_scanned() {
    let main = Network::MainNetwork;
    let takes = |change: fn(&mut CompactTx)| {
        let mut t = tx();
        change(&mut t);
        block(8, vec![tx(), t]).scannable(main, &prior(7))
    };
    assert!(takes(|_| {}));
    assert!(!takes(|t| t.index = 0x1_0000));
    assert!(!takes(|t| t.txid = vec![0; 31]));
    assert!(!takes(|t| t.spends = vec![vec![0; 33]]));
    assert!(!takes(|t| t.outputs = vec![output(vec![0; 31])]));
    assert!(!takes(|t| t.actions = vec![action(vec![0xff; 32])]));
    assert!(!takes(|t| t.actions = vec![action(vec![0; 31])]));
    assert!(takes(|t| t.actions = vec![action(vec![0; 32])]));

    let mut short_hash = block(8, vec![]);
    short_hash.hash = vec![];
    assert!(!short_hash.scannable(main, &prior(7)));
    let mut short_parent = block(8, vec![]);
    short_parent.prev_hash = vec![0; 3];
    assert!(!short_parent.scannable(main, &prior(7)));
    assert!(short_parent.scannable(main, &prior(9)));
    assert!(!block(0x1_0000_0000, vec![]).scannable(main, &None));
    assert!(block(0xffff_ffff, vec![]).scannable(main, &None));
}

fn streaming_from_start() -> ScanRun {
    let mut scan = run(0, Some(90));
    assert!(scan.advance(Reply::Height(3_000_000)).is_ok());
    assert!(scan.advance(Reply::StreamOpened).is_ok());
    scan
}

#[test]
fn outputs_that_do_not_parse_fail_the_scan() {
    let bad_outputs = [
        CompactSaplingOutput { ciphertext: vec![3; 51], ..output(vec![0; 32]) },
        CompactSaplingOutput { ephemeral_key: vec![], ..output(vec![0; 32]) },
        output(vec![0xff; 32]),
    ];
    for bad in bad_outputs {
        let mut first = tx();
        first.outputs = vec![output(vec![0; 32]), bad, output(vec![0; 2])];
        let mut second = tx();
        second.txid = vec![];
        let given = Reply::Block(block(0, vec![first, second]));
        let mut scan = streaming_from_start();
        assert!(scan.accepts(&given));
        assert!(matches!(scan.advance(given), Err(ScanError::Internal)));
    }
    let bad_actions = [
        CompactOrchardAction { cmx: vec![0xff; 32], ..action(vec![0; 32]) },
        CompactOrchardAction { cmx: vec![], ..action(vec![0; 32]) },
        CompactOrchardAction { ephemeral_key: vec![0; 33], ..action(vec![0; 32]) },
        CompactOrchardAction { ciphertext: vec![], ..action(vec![0; 32]) },
    ];
    for bad in bad_actions {
        let mut first = tx();
        first.actions = vec![bad];
        let mut second = tx();
        second.index = 1 << 40;
        let given = Reply::Block(block(0, vec![first, second]));
        let mut scan = streaming_from_start();
        assert!(scan.accepts(&given));
        assert!(matches!(scan.advance(given), Err(ScanError::Internal)));
    }
}

#[test]
fn unknown_tree_sizes_fail_the_scan() {
    let mut malformed = tx();
    malformed.txid = vec![];
    for height in [419_200, 1_687_104, 2_000_000] {
        let given = Reply::Block(block(height, vec![malformed.clone()]));
        let mut scan = streaming_from_start();
        assert!(scan.accepts(&given));
        assert!(matches!(scan.advance(given), Err(ScanError::Internal)));
    }
    assert!(!streaming_from_start().accepts(&Reply::Block(block(419_199, vec![malformed]))));
    let before_sapling = Reply::Block(block(419_199, vec![tx()]));
    assert!(streaming_from_start().advance(before_sapling).is_ok());
}

#[test]
fn blocks_can_tell_their_tree_sizes() {
    let told = |sapling: u32, orchard: u32| {
        let mut t = tx();
        t.outputs = vec![output(vec![0; 32]), output(vec![1; 32])];
        let mut given = block(2_000_000, vec![t]);
        given.chain_metadata = Some(ChainMetadata {
            sapling_commitment_tree_size: sapling,
            orchard_commitment_tree_size: orchard,
        });
        let given = Reply::Block(given);
        let mut scan = streaming_from_start();
        assert!(scan.accepts(&given));
        scan.advance(given).is_ok()
    };
    assert!(told(2, 0));
    assert!(told(500, 7));
    assert!(!told(1, 0));
}

#[test]
fn tree_sizes_grow_from_block_to_block() {
    let metadata = |sapling: u32, orchard: u32| {
        Some(ChainMetadata {
            sapling_commitment_tree_size: sapling,
            orchard_commitment_tree_size: orchard,
        })
    };
    for (sapling, orchard, valid) in [(3, 5, true), (2, 5, false), (3, 4, false)] {
        let mut scan = streaming_from_start();
        let mut first = block(2_000_000, vec![]);
        first.chain_metadata = metadata(2, 4);
        assert!(scan.advance(Reply::Block(first)).is_ok());
        let mut t = tx();
        t.outputs = vec![output(vec![0; 32])];
        t.actions = vec![action(vec![0; 32])];
        let mut second = block(2_000_001, vec![t]);
        second.prev_hash = vec![1; 32];
        second.chain_metadata = metadata(sapling, orchard);
        assert_eq!(scan.advance(Reply::Block(second)).is_ok(), valid);
    }
}

/// A full header that names a parent.
fn header(parent: [u8; 32]) -> Vec<u8> {
    let mut bytes = 4i32.to_le_bytes().to_vec();
    bytes.extend(parent);
    bytes.extend([0; 104]);
    bytes.push(0);
    bytes
}

#[test]
fn headers_take_the_place_of_the_hashes() {
    let with_header = |parent: [u8; 32]| {
        let mut given = block(8, vec![]);
        given.hash = vec![];
        given.prev_hash = vec![];
        given.header = header(parent);
        given
    };
    assert!(with_header([0; 32]).scannable(Network::MainNetwork, &prior(7)));
    let mut cut = with_header([0; 32]);
    cut.header.pop();
    assert!(!cut.scannable(Network::MainNetwork, &prior(7)));

    let mut first = block(0, vec![]);
    first.header = header([0; 32]);
    let mut scan = streaming_from_start();
    assert!(scan.advance(Reply::Block(first)).unwrap().is_none());
    let mut bare = block(1, vec![]);
    bare.prev_hash = vec![1; 32];
    assert!(matches!(scan.offer(Reply::Block(bare)), Some(Err(ScanError::Internal))));

    let mut scan = streaming_from_start();
    assert!(scan.advance(Reply::Block(block(0, vec![]))).unwrap().is_none());
    let mut second = block(1, vec![]);
    second.header = header([1; 32]);
    assert!(matches!(scan.offer(Reply::Block(second)), Some(Ok(None))));
}

#[test]
fn malformed_replies_are_turned_down() {
    let mut malformed = block(0, vec![]);
    malformed.hash = vec![];
    let mut scan = streaming_from_start();
    assert!(scan.offer(Reply::Block(malformed)).is_none());
    assert!(matches!(scan.pending(), Action::NextBlock));
    assert!(matches!(scan.offer(Reply::Block(block(0, vec![]))), Some(Ok(None))));
    assert!(matches!(scan.offer(Reply::StreamEnded), Some(Ok(Some(_)))));

    let key = ufvk();
    let mut run = verify_spend(&test_cfg("main"), &key, "memo", 2_000_000, None).unwrap();
    assert!(matches!(run.offer(Reply::Connected), Some(Ok(Progress::Pending))));
    assert!(matches!(run.offer(Reply::Height(2_000_005)), Some(Ok(Progress::Pending))));
    let unsound = state(&format!("0001{}00", node()), "");
    assert!(run.offer(Reply::TreeState(unsound)).is_none());
    assert!(matches!(run.pending(), Action::TreeState(1_999_999)));
}

#[test]
fn nullifiers_are_elements_of_the_field() {
    let order = "01000000ed302d991bf94c09fc98462200000000000000000000000000000040";
    let mut bytes: Vec<u8> =
        (0..32).map(|i| u8::from_str_radix(&order[2 * i..2 * i + 2], 16).unwrap()).collect();
    let given = |nullifier: Vec<u8>| {
        let mut t = tx();
        t.actions.push(action(nullifier));
        block(8, vec![t]).scannable(Network::MainNetwork, &prior(7))
    };
    assert!(!given(bytes.clone()));
    bytes[0] = 0;
    assert!(given(bytes.clone()));
    bytes[0] = 2;
    assert!(!given(bytes));
}

#[test]
fn trees_do_not_outgrow_their_counters() {
    let mut full = prior(7);
    if let Some(p) = &mut full {
        p.sapling_tree_size = Some(u32::MAX);
    }
    let mut t = tx();
    t.outputs.push(output(vec![0; 32]));
    assert!(!block(8, vec![t.clone()]).scannable(Network::MainNetwork, &full));
    assert!(block(8, vec![t]).scannable(Network::MainNetwork, &prior(7)));
    assert!(block(8, vec![tx()]).scannable(Network::MainNetwork, &full));
}

fn found(transactions: Vec<WalletTx>) -> Findings {
    Findings { transactions, metadata: prior(8).unwrap() }
}

#[test]
fn findings_are_absorbed_in_order() {
    let mut scan = run(0, None);
    let mut spending = tx();
    spending.txid = vec![0x0f; 32];
    spending.spends = vec![vec![0xaa; 32], vec![0xbb; 32], vec![0xcc; 32]];
    spending.actions = vec![action(vec![0x11; 32]), action(vec![0x22; 32])];
    let received = found(vec![
        WalletTx {
            txid: [0xd0; 32],
            sapling: vec![
                ReceivedNote { value_zat: 1, nullifier: Some([0xaa; 32]) },
                ReceivedNote { value_zat: 2, nullifier: None },
            ],
            orchard: vec![ReceivedNote { value_zat: 3, nullifier: Some([0x22; 32]) }],
        },
        WalletTx {
            txid: [0xd1; 32],
            sapling: vec![ReceivedNote { value_zat: 4, nullifier: Some([0xaa; 32]) }],
            orchard: vec![ReceivedNote { value_zat: 5, nullifier: Some([0xcc; 32]) }],
        },
    ]);
    scan.absorb(&block(3, vec![spending]), &received);
    scan.absorb(&block(4, vec![]), &found(vec![]));
    assert_eq!(scan.counts().blocks, 2);
    assert_eq!(scan.counts().orchard_actions, 2);

    assert!(scan.advance(Reply::Height(5)).is_ok());
    assert!(scan.advance(Reply::StreamOpened).is_ok());
    let out = scan.advance(Reply::StreamEnded).unwrap().unwrap();
    let list = |notes: &[Note]| -> Vec<(u64, u64, u64, String, String)> {
        notes
            .iter()
            .map(|n| (n.value_zat, n.height, n.time, n.txid[..2].to_string(), n.pool.clone()))
            .collect()
    };
    let note = |value: u64, txid: &str, pool: &str| {
        (value, 3, 17, txid.to_string(), pool.to_string())
    };
    assert_eq!(
        list(&out.received),
        vec![
            note(1, "d0", "sapling"),
            note(2, "d0", "sapling"),
            note(3, "d0", "orchard"),
            note(4, "d1", "sapling"),
            note(5, "d1", "orchard"),
        ]
    );
    assert_eq!(
        list(&out.spent),
        vec![note(4, "0f", "sapling"), note(5, "0f", "sapling"), note(3, "0f", "orchard")]
    );
    assert_eq!(out.scanned_to_height, 4);
    assert_eq!(out.totals().received_zat, 15);
    assert_eq!(out.totals().spent_zat, 12);
    assert_eq!(out.totals().net_zat, 3);
}

#[test]
fn splitting_a_scan_changes_nothing() {
    let pay = found(vec![WalletTx {
        txid: [1; 32],
        sapling: vec![],
        orchard: vec![ReceivedNote { value_zat: 8, nullifier: Some([9; 32]) }],
    }]);
    let mut spend = tx();
    spend.actions.push(action(vec![9; 32]));
    let mut scan = run(0, None);
    scan.absorb(&block(3, vec![]), &pay);
    assert!(scan.advance(Reply::Height(5)).is_ok());
    assert!(scan.advance(Reply::StreamOpened).is_ok());
    scan.absorb(&block(4, vec![spend]), &found(vec![]));
    let out = scan.advance(Reply::StreamEnded).unwrap().unwrap();
    assert_eq!(out.received.len(), 1);
    assert_eq!(out.spent.len(), 1);
    assert_eq!(out.spent[0].value_zat, 8);
    assert_eq!(out.spent[0].height, 4);
}

#[test]
fn only_repeated_nullifiers_overdraw() {
    let pay = found(vec![WalletTx {
        txid: [1; 32],
        sapling: vec![ReceivedNote { value_zat: 5, nullifier: Some([7; 32]) }],
        orchard: vec![ReceivedNote { value_zat: 8, nullifier: Some([9; 32]) }],
    }]);
    let totals_after = |nullifiers: &[u8]| {
        let mut spend = tx();
        spend.actions = nullifiers.iter().map(|n| action(vec![*n; 32])).collect();
        let mut scan = run(0, None);
        scan.absorb(&block(3, vec![]), &pay);
        scan.absorb(&block(4, vec![spend]), &found(vec![]));
        assert!(scan.advance(Reply::Height(5)).is_ok());
        assert!(scan.advance(Reply::StreamOpened).is_ok());
        scan.advance(Reply::StreamEnded).unwrap().unwrap().totals()
    };
    assert_eq!(totals_after(&[7, 9, 11]).spent_zat, 13);
    assert_eq!(totals_after(&[7, 9, 11]).net_zat, 0);
    assert_eq!(totals_after(&[9]).net_zat, 5);
    assert_eq!(totals_after(&[9, 9]).spent_zat, 16);
    assert_eq!(totals_after(&[9, 9]).received_zat, 13);
}

#[test]
fn totals_do_not_overflow() {
    let note = |value_zat: u64| Note {
        value_zat,
        height: 0,
        time: 0,
        txid: String::new(),
        pool: String::new(),
    };
    let out = ScanOutput {
        received: vec![note(u64::MAX), note(u64::MAX)],
        spent: vec![note(7)],
        scanned_to_height: 0,
    };
    assert_eq!(out.totals().received_zat, 36_893_488_147_419_103_230);
    assert_eq!(out.totals().net_zat, 36_893_488_147_419_103_223);
    let more_spent =
        ScanOutput { received: vec![note(1)], spent: vec![note(2)], scanned_to_height: 0 };
    assert_eq!(more_spent.totals().net_zat, 0);
}

fn memo(text: &[u8]) -> [u8; 512] {
    let mut bytes = [0u8; 512];
    bytes[..text.len()].copy_from_slice(text);
    bytes
}

#[test]
fn any_text_memo_can_match() {
    let memos = vec![memo(b"\xf6"), memo(b"one"), memo(b" two\t")];
    assert!(any_memo_is(&memos, "one"));
    assert!(any_memo_is(&memos, " two\t"));
    assert!(!any_memo_is(&memos, "three"));
    assert!(!any_memo_is(&memos, ""));
    assert!(!any_memo_is(&vec![], ""));
    assert!(!any_memo_is(&memos, "o\u{0}ne"));
}

#[test]
fn whitespace_belongs_to_the_memo() {
    assert!(!any_memo_is(&vec![memo(b"abc ")], "abc"));
    assert!(!any_memo_is(&vec![memo(b"abc")], "abc "));
    assert!(any_memo_is(&vec![memo(b"abc ")], "abc "));
}

#[test]
fn inner_zeros_belong_to_the_memo() {
    let memos = vec![memo(b"a\0b")];
    assert!(any_memo_is(&memos, "a\0b"));
    assert!(!any_memo_is(&memos, "a"));
    let full = vec![[b'x'; 512]];
    assert!(any_memo_is(&full, &"x".repeat(512)));
}

#[test]
fn verification_without_spends_finds_nothing() {
    let key = ufvk();
    let cfg = test_cfg("main");
    let mut run = verify_spend(&cfg, &key, "memo", 61, None).unwrap();
    assert!(matches!(run.advance(Reply::Connected), Ok(Progress::Pending)));
    assert!(matches!(run.advance(Reply::Height(60)), Ok(Progress::Pending)));
    assert!(matches!(run.pending(), Action::Connect));
    assert_eq!(run.spends(), 0);
    assert!(matches!(run.advance(Reply::Connected), Ok(Progress::Complete(None))));
    assert!(matches!(run.pending(), Action::Nothing));
}

#[test]
fn verification_fails_as_the_scan_does() {
    let key = ufvk();
    let cfg = test_cfg("main");
    let mut refused = verify_spend(&cfg, &key, "memo", 0, None).unwrap();
    assert!(refused.advance(Reply::Connected).is_ok());
    match refused.advance(Reply::Height(101)) {
        Err(ScanError::BadRequest(m)) => assert_eq!(
            m,
            "scan range too large (101 blocks; max 100). Use a more recent birthday height."
        ),
        other => panic!("{other:?}"),
    }
    assert!(matches!(refused.pending(), Action::Nothing));

    let mut lost = verify_spend(&cfg, &key, "memo", 61, None).unwrap();
    assert!(lost.advance(Reply::Connected).is_ok());
    assert!(lost.advance(Reply::Height(60)).is_ok());
    assert!(matches!(lost.advance(Reply::Failed), Err(ScanError::Upstream)));

    let mut unfit = verify_spend(&cfg, &key, "memo", 61, None).unwrap();
    assert!(unfit.advance(Reply::Connected).is_ok());
    assert!(unfit.advance(Reply::Height(60)).is_ok());
    assert!(matches!(unfit.advance(Reply::StreamOpened), Err(ScanError::Internal)));
}

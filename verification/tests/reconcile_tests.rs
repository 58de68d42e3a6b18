use mblog::reconcile::PollState;
use mblog::reconcile::PreRuntimeLog;
use mblog::reconcile::ResolvedBlock;
use mblog::reconcile::apply_finality_scan;
use mblog::reconcile::aura_slot_from_header;
use mblog::reconcile::compute_sleep_secs;
use mblog::reconcile::current_epoch;
use mblog::reconcile::latest_slot_of;
use mblog::reconcile::mint_slot;
use mblog::store::Status;
use mblog::store::Store;

fn aura_log(slot: u64) -> PreRuntimeLog {
    let mut data = slot.to_le_bytes().to_vec();
    data.push(0xff);
    PreRuntimeLog { engine: b"aura".to_vec(), data }
}

#[test]
fn slot_from_aura_digest() {
    assert_eq!(aura_slot_from_header(&vec![aura_log(7)]), Some(7));
    let other = PreRuntimeLog { engine: b"babe".to_vec(), data: vec![1, 2, 3, 4, 5, 6, 7, 8] };
    assert_eq!(aura_slot_from_header(&vec![other, aura_log(9)]), Some(9));
    assert_eq!(aura_slot_from_header(&Vec::new()), None);
    let short = PreRuntimeLog { engine: b"aura".to_vec(), data: vec![1, 2, 3] };
    assert_eq!(aura_slot_from_header(&vec![short]), None);
}

#[test]
fn mint_decision_follows_round_robin() {
    let auths = vec![vec![0xaa; 32], vec![0xbb; 32], vec![0xcc; 32]];
    assert_eq!(mint_slot(&auths, &vec![0xbb; 32], Some(4)), Some(4));
    assert_eq!(mint_slot(&auths, &vec![0xaa; 32], Some(4)), None);
    assert_eq!(mint_slot(&auths, &vec![0xbb; 32], None), None);
}

#[test]
fn finality_scan_skips_unresolved_and_advances_marker() {
    // lastFinalized = 10, newFinalized = 13: blocks 11, 12, 13 are
    // attempted in order; 12's header lookup failed, 11 and 13 still land.
    let mut store = Store::new();
    store.insert_schedule(
        0,
        &vec![
            (111, "t111".to_string()),
            (112, "t112".to_string()),
            (113, "t113".to_string()),
        ],
    );
    let mut state = PollState::new();
    state.last_finalized_number = 10;
    let resolved = vec![
        Some(ResolvedBlock {
            number: 11,
            slot: 111,
            block_hash: "h11".to_string(),
            produced_time: "p11".to_string(),
        }),
        None,
        Some(ResolvedBlock {
            number: 13,
            slot: 113,
            block_hash: "h13".to_string(),
            produced_time: "p13".to_string(),
        }),
    ];
    apply_finality_scan(&mut store, &mut state, 13, &resolved);
    assert_eq!(store.get_block(111).unwrap().status, Status::Finalized);
    assert_eq!(store.get_block(111).unwrap().block_number, Some(11));
    assert_eq!(store.get_block(112).unwrap().status, Status::Scheduled);
    assert_eq!(store.get_block(113).unwrap().status, Status::Finalized);
    assert_eq!(state.last_finalized_number, 13);
}

#[test]
fn finality_scan_reapplied_is_noop() {
    let mut store = Store::new();
    store.insert_schedule(0, &vec![(50, "t".to_string())]);
    let mut state = PollState::new();
    let resolved = vec![Some(ResolvedBlock {
        number: 1,
        slot: 50,
        block_hash: "h1".to_string(),
        produced_time: "p1".to_string(),
    })];
    apply_finality_scan(&mut store, &mut state, 1, &resolved);
    let first_number = store.get_block(50).unwrap().block_number;
    // The same range observed again after a restart.
    let mut state2 = PollState::new();
    apply_finality_scan(&mut store, &mut state2, 1, &resolved);
    let rec = store.get_block(50).unwrap();
    assert_eq!(rec.status, Status::Finalized);
    assert_eq!(rec.block_number, first_number);
}

#[test]
fn observations_report_changes() {
    let mut state = PollState::new();
    assert!(state.observe_authorities(&vec![1, 2, 3], 3));
    assert!(!state.observe_authorities(&vec![1, 2, 3], 3));
    assert!(state.observe_authorities(&vec![1, 2, 4], 3));
    assert!(state.observe_authorities(&vec![1, 2, 4], 5));

    assert!(state.observe_epoch(7));
    assert!(!state.observe_epoch(7));
    assert!(state.observe_epoch(8));

    assert!(state.observe_author_present(true));
    assert!(!state.observe_author_present(true));
    assert!(state.observe_author_present(false));

    assert!(state.observe_schedule(&vec![9, 9]));
    assert!(!state.observe_schedule(&vec![9, 9]));
    assert!(state.observe_schedule(&vec![9, 8]));

    assert!(state.observe_best_head(&vec![0x01; 32]));
    assert!(!state.observe_best_head(&vec![0x01; 32]));
    assert!(state.observe_best_head(&vec![0x02; 32]));
}

#[test]
fn sleep_interval_rules() {
    // Pinned epoch: always the configured interval.
    assert_eq!(compute_sleep_secs(true, 30, 5, 1200, 0, 6000), 30);
    // Near the boundary: wake one second past it.
    assert_eq!(compute_sleep_secs(false, 30, 0, 10, 8, 1000), 3);
    // Far from the boundary: capped at the configured interval.
    assert_eq!(compute_sleep_secs(false, 30, 0, 1000, 0, 6000), 30);
    // Boundary already passed: at least one second.
    assert_eq!(compute_sleep_secs(false, 30, 0, 10, 25, 1000), 2);
}

#[test]
fn epoch_and_slot_selection() {
    assert_eq!(current_epoch(Some(9), 123456, 1200), 9);
    assert_eq!(current_epoch(None, 2400, 1200), 2);
    assert_eq!(latest_slot_of(Some(77), 600000, 6000), 77);
    assert_eq!(latest_slot_of(None, 600000, 6000), 100);
}

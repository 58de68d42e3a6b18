use mblog::store::EpochInfo;
use mblog::store::Status;
use mblog::store::Store;

fn schedule_one(store: &mut Store, slot: u64, time: &str) {
    store.insert_schedule(0, &vec![(slot, time.to_string())]);
}

#[test]
fn schedule_then_mint_then_finalize() {
    let mut store = Store::new();
    schedule_one(&mut store, 5, "t5");
    {
        let rec = store.get_block(5).unwrap();
        assert_eq!(rec.status, Status::Scheduled);
        assert_eq!(rec.epoch, 0);
        assert_eq!(rec.planned_time, "t5");
        assert_eq!(rec.block_number, None);
    }
    store.update_block_status(5, 100, "0xh100".to_string(), "pt100".to_string(), Status::Minted);
    {
        let rec = store.get_block(5).unwrap();
        assert_eq!(rec.status, Status::Minted);
        assert_eq!(rec.block_number, Some(100));
        assert_eq!(rec.block_hash.as_deref(), Some("0xh100"));
        assert_eq!(rec.produced_time.as_deref(), Some("pt100"));
    }
    store.update_block_status(5, 100, "0xh100".to_string(), "pt100".to_string(), Status::Finalized);
    assert_eq!(store.get_block(5).unwrap().status, Status::Finalized);
}

#[test]
fn direct_schedule_to_finalized_edge() {
    let mut store = Store::new();
    schedule_one(&mut store, 9, "t9");
    store.update_block_status(9, 42, "0xh42".to_string(), "pt42".to_string(), Status::Finalized);
    let rec = store.get_block(9).unwrap();
    assert_eq!(rec.status, Status::Finalized);
    assert_eq!(rec.block_number, Some(42));
}

#[test]
fn status_never_regresses() {
    let mut store = Store::new();
    schedule_one(&mut store, 5, "t5");
    store.update_block_status(5, 100, "h".to_string(), "p".to_string(), Status::Finalized);
    // A later mint observation must not demote or rewrite the row.
    store.update_block_status(5, 999, "other".to_string(), "q".to_string(), Status::Minted);
    let rec = store.get_block(5).unwrap();
    assert_eq!(rec.status, Status::Finalized);
    assert_eq!(rec.block_number, Some(100));
    assert_eq!(rec.block_hash.as_deref(), Some("h"));
    // Nor may a schedule rewrite touch a finalized row.
    schedule_one(&mut store, 5, "rewritten");
    let rec = store.get_block(5).unwrap();
    assert_eq!(rec.status, Status::Finalized);
    assert_eq!(rec.planned_time, "t5");
}

#[test]
fn minted_not_rewritten_by_mint() {
    let mut store = Store::new();
    schedule_one(&mut store, 5, "t5");
    store.update_block_status(5, 100, "h100".to_string(), "p100".to_string(), Status::Minted);
    store.update_block_status(5, 200, "h200".to_string(), "p200".to_string(), Status::Minted);
    let rec = store.get_block(5).unwrap();
    assert_eq!(rec.block_number, Some(100));
    assert_eq!(rec.block_hash.as_deref(), Some("h100"));
}

#[test]
fn update_of_missing_row_is_noop() {
    let mut store = Store::new();
    store.update_block_status(7, 1, "h".to_string(), "p".to_string(), Status::Minted);
    assert!(store.get_block(7).is_none());
}

#[test]
fn identical_status_update_twice_is_noop() {
    let mut a = Store::new();
    schedule_one(&mut a, 5, "t5");
    a.update_block_status(5, 100, "h".to_string(), "p".to_string(), Status::Minted);
    let mut b = Store::new();
    schedule_one(&mut b, 5, "t5");
    b.update_block_status(5, 100, "h".to_string(), "p".to_string(), Status::Minted);
    b.update_block_status(5, 100, "h".to_string(), "p".to_string(), Status::Minted);
    let ra = a.get_block(5).unwrap();
    let rb = b.get_block(5).unwrap();
    assert_eq!(ra.status, rb.status);
    assert_eq!(ra.epoch, rb.epoch);
    assert_eq!(ra.planned_time, rb.planned_time);
    assert_eq!(ra.block_number, rb.block_number);
    assert_eq!(ra.block_hash, rb.block_hash);
    assert_eq!(ra.produced_time, rb.produced_time);
}

#[test]
fn identical_epoch_upsert_twice_is_noop() {
    let mut store = Store::new();
    let info = || EpochInfo {
        start_slot: 0,
        end_slot: 5,
        authority_set_fingerprint: "0xabc".to_string(),
        authority_set_len: 3,
        created_at: "now".to_string(),
    };
    store.upsert_epoch_info(0, info());
    store.upsert_epoch_info(0, info());
    let row = store.get_epoch(0).unwrap();
    assert_eq!(row.start_slot, 0);
    assert_eq!(row.end_slot, 5);
    assert_eq!(row.authority_set_fingerprint, "0xabc");
    assert_eq!(row.authority_set_len, 3);
    assert_eq!(row.created_at, "now");
}

#[test]
fn epoch_upsert_overwrites() {
    let mut store = Store::new();
    store.upsert_epoch_info(
        2,
        EpochInfo {
            start_slot: 12,
            end_slot: 17,
            authority_set_fingerprint: "0xold".to_string(),
            authority_set_len: 2,
            created_at: "t1".to_string(),
        },
    );
    store.upsert_epoch_info(
        2,
        EpochInfo {
            start_slot: 12,
            end_slot: 17,
            authority_set_fingerprint: "0xnew".to_string(),
            authority_set_len: 4,
            created_at: "t2".to_string(),
        },
    );
    let row = store.get_epoch(2).unwrap();
    assert_eq!(row.authority_set_fingerprint, "0xnew");
    assert_eq!(row.authority_set_len, 4);
    assert_eq!(row.created_at, "t2");
}

#[test]
fn schedule_refresh_while_scheduled() {
    let mut store = Store::new();
    schedule_one(&mut store, 5, "first");
    store.insert_schedule(3, &vec![(5, "second".to_string())]);
    let rec = store.get_block(5).unwrap();
    assert_eq!(rec.epoch, 3);
    assert_eq!(rec.planned_time, "second");
    assert_eq!(rec.status, Status::Scheduled);
}

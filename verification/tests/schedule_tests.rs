use mblog::schedule::author_in_authorities;
use mblog::schedule::compute_my_slots;
use mblog::schedule::epoch_end_slot;
use mblog::schedule::epoch_start_slot;
use mblog::schedule::project_time;

fn three_authorities() -> Vec<Vec<u8>> {
    vec![vec![0xaa; 32], vec![0xbb; 32], vec![0xcc; 32]]
}

#[test]
fn own_slots_of_second_authority() {
    // authorities [A, B, C], epoch size 6, epoch 0: B owns slots 1 and 4.
    let auths = three_authorities();
    let start = epoch_start_slot(0, 6);
    let end = epoch_end_slot(start, 6);
    assert_eq!(start, 0);
    assert_eq!(end, 5);
    let slots = compute_my_slots(&auths, &vec![0xbb; 32], start, 6);
    assert_eq!(slots, vec![1, 4]);
}

#[test]
fn own_slots_deterministic() {
    let auths = three_authorities();
    let a = compute_my_slots(&auths, &vec![0xcc; 32], 12, 100);
    let b = compute_my_slots(&auths, &vec![0xcc; 32], 12, 100);
    assert_eq!(a, b);
}

#[test]
fn own_slots_empty_authorities() {
    let slots = compute_my_slots(&Vec::new(), &vec![0xbb; 32], 0, 10);
    assert!(slots.is_empty());
}

#[test]
fn own_slots_unknown_author() {
    let auths = three_authorities();
    let slots = compute_my_slots(&auths, &vec![0x11; 32], 0, 9);
    assert!(slots.is_empty());
}

#[test]
fn round_robin_partitions_window() {
    // A window of 7 slots over 3 authorities: shares 3, 2, 2, partitioning
    // the window exactly.
    let auths = three_authorities();
    let a = compute_my_slots(&auths, &vec![0xaa; 32], 0, 7);
    let b = compute_my_slots(&auths, &vec![0xbb; 32], 0, 7);
    let c = compute_my_slots(&auths, &vec![0xcc; 32], 0, 7);
    assert_eq!(a, vec![0, 3, 6]);
    assert_eq!(b, vec![1, 4]);
    assert_eq!(c, vec![2, 5]);
    let mut all: Vec<u64> = Vec::new();
    all.extend(&a);
    all.extend(&b);
    all.extend(&c);
    all.sort();
    assert_eq!(all, vec![0, 1, 2, 3, 4, 5, 6]);
}

#[test]
fn window_not_aligned_to_epoch() {
    let auths = three_authorities();
    // Start slot 5: 5 % 3 == 2 -> C, 6 % 3 == 0 -> A, 7 % 3 == 1 -> B.
    let b = compute_my_slots(&auths, &vec![0xbb; 32], 5, 3);
    assert_eq!(b, vec![7]);
}

#[test]
fn project_time_future_and_past() {
    assert_eq!(project_time(10, 5, 1000, 6000), 1000 + 5 * 6000);
    assert_eq!(project_time(3, 5, 1000, 6000), 1000 - 2 * 6000);
    assert_eq!(project_time(5, 5, 1000, 6000), 1000);
}

#[test]
fn epoch_framing() {
    assert_eq!(epoch_start_slot(3, 1200), 3600);
    assert_eq!(epoch_end_slot(3600, 1200), 4799);
    assert_eq!(epoch_end_slot(7, 0), 7);
}

#[test]
fn author_membership() {
    let auths = three_authorities();
    assert!(author_in_authorities(&vec![0xaa; 32], &auths));
    assert!(!author_in_authorities(&vec![0x11; 32], &auths));
    assert!(!author_in_authorities(&vec![0xaa; 31], &auths));
}

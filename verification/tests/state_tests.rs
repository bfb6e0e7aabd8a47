use std::collections::HashMap;

use remerge::state::{
    clear_staged_workorder_references, plan_workorder_eviction, track_staged_workorder_references,
    RetainedWorkorder, SnapshotReferenceSet,
};

const MINUTE: i64 = 60_000;
const HOUR: i64 = 60 * MINUTE;
const NOW: i64 = 1_700_000_000_000;

#[test]
fn staged_workorder_reference_tracking_replaces_and_clears_entries() {
    let id: u128 = 0x7d44_1c2a_9b3e_4f50_8a61_2b3c_4d5e_6f70;
    let mut staged = HashMap::new();
    let first_seen = NOW - 5 * MINUTE;
    let refreshed_at = first_seen + 3 * MINUTE;

    track_staged_workorder_references(
        &mut staged,
        id,
        SnapshotReferenceSet {
            blob_digests: vec!["blob-a".to_string()],
            tree_digests: vec!["tree-a".to_string()],
            total_blob_bytes: 11,
            total_tree_bytes: 22,
            last_referenced_millis: first_seen,
        },
    );
    assert_eq!(staged[&id].blob_digests, vec!["blob-a".to_string()]);
    assert_eq!(staged[&id].total_blob_bytes, 11);
    assert_eq!(staged[&id].total_tree_bytes, 22);
    assert_eq!(staged[&id].last_referenced_millis, first_seen);

    track_staged_workorder_references(
        &mut staged,
        id,
        SnapshotReferenceSet {
            blob_digests: vec!["blob-b".to_string()],
            tree_digests: vec!["tree-b".to_string()],
            total_blob_bytes: 33,
            total_tree_bytes: 44,
            last_referenced_millis: refreshed_at,
        },
    );
    assert_eq!(staged[&id].blob_digests, vec!["blob-b".to_string()]);
    assert_eq!(staged[&id].tree_digests, vec!["tree-b".to_string()]);
    assert_eq!(staged[&id].total_blob_bytes, 33);
    assert_eq!(staged[&id].total_tree_bytes, 44);
    assert_eq!(staged[&id].last_referenced_millis, refreshed_at);

    clear_staged_workorder_references(&mut staged, &id);
    assert!(!staged.contains_key(&id));
}

fn wo(id: u128, terminal: bool, hours_ago: i64) -> RetainedWorkorder {
    RetainedWorkorder { id, terminal, updated_at_millis: NOW - hours_ago * HOUR }
}

#[test]
fn stale_terminal_workorders_are_evicted() {
    let ws = vec![wo(1, true, 200), wo(2, false, 500), wo(3, true, 10), wo(4, true, 169)];
    let plan = plan_workorder_eviction(&ws, 168, 0, NOW);
    assert_eq!(plan.stale, vec![1, 4]);
    assert!(plan.over_cap.is_empty());
}

#[test]
fn cap_evicts_oldest_terminal_first() {
    let ws = vec![
        wo(1, true, 5),
        wo(2, false, 50),
        wo(3, true, 7),
        wo(4, true, 5),
        wo(5, true, 1),
    ];
    let plan = plan_workorder_eviction(&ws, 168, 2, NOW);
    assert!(plan.stale.is_empty());
    // Five left, cap two: three go, oldest first, equal times in order.
    assert_eq!(plan.over_cap, vec![3, 1, 4]);
}

#[test]
fn cap_never_evicts_running_workorders() {
    let ws = vec![wo(1, false, 5), wo(2, false, 6), wo(3, true, 1)];
    let plan = plan_workorder_eviction(&ws, 168, 1, NOW);
    assert_eq!(plan.over_cap, vec![3]);
}

#[test]
fn under_the_cap_nothing_is_evicted() {
    let ws = vec![wo(1, true, 5), wo(2, true, 6)];
    let plan = plan_workorder_eviction(&ws, 168, 2, NOW);
    assert!(plan.over_cap.is_empty());
    assert!(plan.stale.is_empty());
}

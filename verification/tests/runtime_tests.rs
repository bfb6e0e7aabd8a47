use remerge::runtime::{
    distfile_output_blobs_dir, distfile_output_manifest_path, parity_runtime_dir,
    plan_snapshot_cleanup, runtime_dir, sanitize_file_name, sanitize_relative_path, CacheRecord,
    CleanupPolicy, EntryKind, RuntimeError, SnapshotCleanupSummary,
};

const HOUR: i64 = 3_600_000;
const NOW: i64 = 1_700_000_000_000;

fn record(digest: &str, hours_ago: i64, raw: u64, variants: &[u64]) -> CacheRecord {
    CacheRecord {
        digest: digest.to_string(),
        last_referenced_millis: NOW - hours_ago * HOUR,
        raw_size_bytes: raw,
        encoded_variant_bytes: variants.to_vec(),
    }
}

fn policy(floor: u64) -> CleanupPolicy {
    CleanupPolicy { grace_period_hours: 24, hard_delete_hours: 168, min_retained_bytes: floor }
}

#[test]
fn runtime_paths() {
    assert_eq!(parity_runtime_dir("/var/lib/remerge/runtime/x"), "/var/lib/remerge/runtime/x/parity");
    assert_eq!(
        distfile_output_manifest_path("/state/runtime/x"),
        "/state/runtime/x/parity/distfiles.json"
    );
    assert_eq!(distfile_output_blobs_dir("/state/runtime/x/"), "/state/runtime/x/parity/blobs");
    assert_eq!(
        runtime_dir("/state", 0x550e8400_e29b_41d4_a716_446655440000),
        "/state/runtime/550e8400-e29b-41d4-a716-446655440000"
    );
}

#[test]
fn file_names_must_stay_in_their_directory() {
    assert_eq!(sanitize_file_name("foo-1.0.tar.gz"), Ok("foo-1.0.tar.gz".to_string()));
    assert_eq!(
        sanitize_file_name(""),
        Err(RuntimeError::InvalidFileName { name: String::new() })
    );
    assert!(sanitize_file_name("a/b").is_err());
    assert!(sanitize_file_name("..").is_err());
    assert!(sanitize_file_name("x..y").is_err());
}

#[test]
fn relative_paths_keep_only_normal_components() {
    assert_eq!(sanitize_relative_path("etc/portage/make.conf"), Ok("etc/portage/make.conf".to_string()));
    assert_eq!(sanitize_relative_path("a//b/./c/"), Ok("a/b/c".to_string()));
    assert_eq!(
        sanitize_relative_path("/etc/passwd"),
        Err(RuntimeError::InvalidRelativePath { path: "/etc/passwd".to_string() })
    );
    assert!(sanitize_relative_path("").is_err());
    assert!(sanitize_relative_path("a/../b").is_err());
    assert!(sanitize_relative_path("./a").is_err());
}

#[test]
fn cleanup_deletes_hard_tier_then_oldest_grace_entries_down_to_the_floor() {
    let blobs = vec![
        record("b-active", 500, 100, &[]),
        record("b-hard", 200, 100, &[20]),
        record("b-grace-new", 30, 100, &[]),
        record("b-fresh", 1, 100, &[]),
    ];
    let trees = vec![record("t-grace-old", 100, 50, &[]), record("t-hard", 169, 10, &[])];
    // Total: 100 + 120 + 100 + 100 + 50 + 10 = 480.
    let plan = plan_snapshot_cleanup(
        &blobs,
        &trees,
        &["b-active".to_string()],
        &[],
        policy(250),
        NOW,
    );
    let order: Vec<(&str, EntryKind)> =
        plan.deletions.iter().map(|e| (e.digest.as_str(), e.kind)).collect();
    // 480 -> 360 (b-hard) -> 350 (t-hard) -> 300 (t-grace-old) -> 200 (b-grace-new).
    assert_eq!(
        order,
        vec![
            ("b-hard", EntryKind::Blob),
            ("t-hard", EntryKind::Tree),
            ("t-grace-old", EntryKind::Tree),
            ("b-grace-new", EntryKind::Blob),
        ]
    );
    assert_eq!(
        plan.summary,
        SnapshotCleanupSummary { deleted_blobs: 2, deleted_trees: 2, reclaimed_bytes: 280 }
    );
}

#[test]
fn cleanup_stops_once_at_the_floor() {
    let blobs = vec![record("old-1", 400, 100, &[]), record("old-2", 300, 100, &[])];
    let plan = plan_snapshot_cleanup(&blobs, &[], &[], &[], policy(100), NOW);
    assert_eq!(plan.deletions.len(), 1);
    assert_eq!(plan.deletions[0].digest, "old-1");

    let plan = plan_snapshot_cleanup(&blobs, &[], &[], &[], policy(200), NOW);
    assert!(plan.deletions.is_empty());
    assert_eq!(
        plan.summary,
        SnapshotCleanupSummary { deleted_blobs: 0, deleted_trees: 0, reclaimed_bytes: 0 }
    );
}

#[test]
fn entries_within_the_grace_period_are_kept() {
    let blobs = vec![record("recent", 23, 1000, &[])];
    let plan = plan_snapshot_cleanup(&blobs, &[], &[], &[], policy(0), NOW);
    assert!(plan.deletions.is_empty());
}

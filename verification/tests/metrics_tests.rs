use remerge::metrics::{Metrics, MAX_PACKAGE_BUILD_METRIC_SERIES};

#[test]
fn prometheus_output_includes_package_labels() {
    let mut metrics = Metrics::new();
    metrics.record_package_build("dev-libs/openssl", 12);
    metrics.record_cleanup(true);
    metrics.record_snapshot_blob_upload(42, false);

    let body = metrics.to_prometheus();
    assert!(body.contains("remerge_package_builds_by_atom_total{atom=\"dev-libs/openssl\"} 1"));
    assert!(body.contains("remerge_cleanup_success_total 1"));
    assert!(body.contains("remerge_snapshot_blob_upload_dedup_hits_total 1"));
}

#[test]
fn prometheus_blocks_have_help_type_and_sample() {
    let mut metrics = Metrics::new();
    metrics.queue_depth = 3;
    let body = metrics.to_prometheus();
    assert!(body.starts_with(
        "# HELP remerge_workorders_submitted_total Total number of workorders submitted.\n# TYPE remerge_workorders_submitted_total counter\nremerge_workorders_submitted_total 0\n\n"
    ));
    assert!(body.contains(
        "# TYPE remerge_queue_depth gauge\nremerge_queue_depth 3\n\n"
    ));
    assert!(body.ends_with("# TYPE remerge_package_build_duration_seconds_by_atom_total counter\n\n"));
}

#[test]
fn package_series_are_escaped_sorted_and_bounded() {
    let mut metrics = Metrics::new();
    metrics.record_package_build("b/\"q\"", 5);
    metrics.record_package_build("a/x", 2);
    metrics.record_package_build("a/x", 3);
    let body = metrics.to_prometheus();
    let a = body.find("remerge_package_builds_by_atom_total{atom=\"a/x\"} 2").unwrap();
    let b = body.find("remerge_package_builds_by_atom_total{atom=\"b/\\\"q\\\"\"} 1").unwrap();
    assert!(a < b);
    assert!(body.contains("remerge_package_build_duration_seconds_by_atom_total{atom=\"a/x\"} 5"));
    assert!(body.contains("remerge_package_builds_total 3"));

    let mut full = Metrics::new();
    for i in 0..MAX_PACKAGE_BUILD_METRIC_SERIES + 5 {
        full.record_package_build(&format!("cat/pkg{i:04}"), 1);
    }
    assert_eq!(full.package_builds_by_atom.len(), MAX_PACKAGE_BUILD_METRIC_SERIES);
    assert_eq!(full.package_builds_total, (MAX_PACKAGE_BUILD_METRIC_SERIES + 5) as u64);
    assert!(!full.to_prometheus().contains("pkg0130"));
}

#[test]
fn counters_wrap_like_atomics() {
    let mut metrics = Metrics::new();
    metrics.cleanup_reclaimed_bytes_total = u64::MAX;
    metrics.record_cleanup_reclaimed_bytes(2);
    assert_eq!(metrics.cleanup_reclaimed_bytes_total, 1);
    metrics.record_snapshot_missing_blob_query(10, 4);
    assert_eq!(metrics.snapshot_missing_blob_queries_total, 1);
    assert_eq!(metrics.snapshot_missing_blob_digests_total, 10);
    assert_eq!(metrics.snapshot_missing_blob_digests_missing_total, 4);
    metrics.record_snapshot_blob_upload(7, true);
    assert_eq!(metrics.snapshot_blob_upload_dedup_hits_total, 0);
    metrics.record_worker_image_build(9);
    metrics.record_worker_container_start(4);
    metrics.record_snapshot_blob_download(11);
    metrics.record_snapshot_runtime_stage(12);
    metrics.record_cleanup(false);
    assert_eq!(metrics.worker_image_build_duration_secs_total, 9);
    assert_eq!(metrics.worker_container_startup_duration_secs_total, 4);
    assert_eq!(metrics.snapshot_blob_download_bytes_total, 11);
    assert_eq!(metrics.snapshot_runtime_stage_bytes_total, 12);
    assert_eq!(metrics.cleanup_failure_total, 1);
}

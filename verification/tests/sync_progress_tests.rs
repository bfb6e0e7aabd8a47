use remerge::sync_progress::{
    binpkg_url, cache_hit, check_downloaded_binpkg, packages_index_url, summary_heading,
    sync_output_mode, BinpkgCheckError, PackageSyncDisposition, PackageSyncStatus,
    SyncProgressOutputMode, SyncProgressReporter,
};

#[test]
fn sync_progress_reporter_can_use_plain_mode() {
    let reporter = SyncProgressReporter::with_output_mode(
        1,
        "https://binhost.invalid".to_string(),
        SyncProgressOutputMode::Plain,
    );
    assert_eq!(reporter.output_mode, SyncProgressOutputMode::Plain);
    assert_eq!(reporter.header_line(), "Syncing 1 package(s) from https://binhost.invalid");
}

#[test]
fn progress_is_redrawn_at_most_once_per_interval() {
    let mut r = SyncProgressReporter::with_output_mode(1, "b".to_string(), SyncProgressOutputMode::Interactive);
    r.start_download();
    assert!(r.update_download_progress(1_000, 10, 100));
    assert!(!r.update_download_progress(1_050, 20, 100));
    assert!(r.update_download_progress(1_100, 30, 100));
    // A complete download is always drawn.
    assert!(r.update_download_progress(1_101, 100, 100));
    let mut plain = SyncProgressReporter::with_output_mode(1, "b".to_string(), SyncProgressOutputMode::Plain);
    assert!(plain.update_download_progress(0, 1, 100));
    assert!(!plain.update_download_progress(999, 2, 100));
    assert!(plain.update_download_progress(1_000, 3, 100));
    plain.finish_download();
    assert!(plain.update_download_progress(1_001, 4, 100));
}

#[test]
fn quiet_mode_draws_nothing() {
    let mut r = SyncProgressReporter::with_output_mode(1, "b".to_string(), SyncProgressOutputMode::Silent);
    assert!(!r.prints_lines());
    assert!(!r.update_download_progress(0, 100, 100));
    assert_eq!(r.last_progress_draw_millis, None);
}

#[test]
fn summary_counts_downloads_reuse_and_failure() {
    let mut r = SyncProgressReporter::with_output_mode(3, "b".to_string(), SyncProgressOutputMode::Plain);
    r.record_result(&PackageSyncStatus { atom: "a/b-1".to_string(), size: 10, disposition: PackageSyncDisposition::Downloaded });
    r.record_result(&PackageSyncStatus { atom: "a/c-1".to_string(), size: 5, disposition: PackageSyncDisposition::CacheHit });
    r.record_result(&PackageSyncStatus { atom: "a/d-1".to_string(), size: 7, disposition: PackageSyncDisposition::Downloaded });
    assert_eq!(summary_heading(&r.summary), "Sync complete:");
    r.record_failure("a/e-1");
    let s = r.finish(1234);
    assert_eq!((s.downloaded_packages, s.downloaded_bytes), (2, 17));
    assert_eq!((s.reused_packages, s.reused_bytes), (1, 5));
    assert_eq!(s.failed_package.as_deref(), Some("a/e-1"));
    assert_eq!(s.elapsed_millis, 1234);
    assert_eq!(summary_heading(&s), "Sync incomplete:");
}

#[test]
fn binpkg_urls_join_the_binhost_and_the_package_path() {
    assert_eq!(
        binpkg_url("https://binhost.invalid/binpkgs//", "/dev-libs/demo-1.0.gpkg.tar"),
        "https://binhost.invalid/binpkgs/dev-libs/demo-1.0.gpkg.tar"
    );
    assert_eq!(binpkg_url("http://h", "a/b.gpkg.tar"), "http://h/a/b.gpkg.tar");
    assert_eq!(packages_index_url("http://h/binpkgs/"), "http://h/binpkgs/Packages");
}

#[test]
fn cached_package_must_match_size_and_digest() {
    assert!(cache_hit(Some(10), 10, Some("ABCDEF"), "abcdef"));
    assert!(!cache_hit(Some(9), 10, Some("abcdef"), "abcdef"));
    assert!(!cache_hit(None, 10, None, "abcdef"));
    assert!(!cache_hit(Some(10), 10, Some("abcdee"), "abcdef"));
}

#[test]
fn downloaded_package_is_checked_by_size_then_digest() {
    assert_eq!(check_downloaded_binpkg("dev-libs/demo-1.0", 10, 10, "AB", "ab"), Ok(()));
    let err = check_downloaded_binpkg("dev-libs/demo-1.0", 9, 10, "ab", "ab").unwrap_err();
    assert_eq!(err.message(), "Downloaded 9 but expected 10 bytes for dev-libs/demo-1.0");
    let err = check_downloaded_binpkg("dev-libs/demo-1.0", 10, 10, "cd", "ab").unwrap_err();
    assert!(matches!(err, BinpkgCheckError::DigestMismatch { .. }));
    assert_eq!(err.message(), "SHA256 mismatch for dev-libs/demo-1.0: expected ab, got cd");
}

#[test]
fn sync_output_mode_follows_quiet_and_terminal() {
    assert_eq!(sync_output_mode(true, true), SyncProgressOutputMode::Silent);
    assert_eq!(sync_output_mode(false, true), SyncProgressOutputMode::Interactive);
    assert_eq!(sync_output_mode(false, false), SyncProgressOutputMode::Plain);
}

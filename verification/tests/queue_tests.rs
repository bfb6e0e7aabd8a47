use remerge::queue::{
    build_failure_reason, collect_worker_events, WaitOutcome, WorkerEvent,
    completed_built_packages, emerge_line_captures, exit_failure_reason, failed_packages_for_atoms,
    failure_packages, match_emerge_line, next_pending, packages_from_events, EmergeLineAction,
    FailedPackage, QueueEntry,
};
use remerge::repo::PackageMeta;

fn strings(v: &[&str]) -> Vec<String> {
    v.iter().map(|s| s.to_string()).collect()
}

#[test]
fn emerging_line_starts_the_package() {
    let action =
        match_emerge_line(">>> Emerging (1 of 3) dev-libs/openssl-3.1.4::gentoo", None);
    assert_eq!(action, EmergeLineAction::StartPackage("dev-libs/openssl-3.1.4".to_string()));
}

#[test]
fn completed_line_is_timed_only_for_the_current_package() {
    let line = ">>> Completed (1 of 3) dev-libs/openssl-3.1.4::gentoo";
    assert_eq!(
        match_emerge_line(line, Some("dev-libs/openssl-3.1.4")),
        EmergeLineAction::Built { atom: "dev-libs/openssl-3.1.4".to_string(), timed: true }
    );
    assert_eq!(
        match_emerge_line(line, Some("app-misc/other-1")),
        EmergeLineAction::Built { atom: "dev-libs/openssl-3.1.4".to_string(), timed: false }
    );
}

#[test]
fn ebuild_error_fails_the_package_with_the_line() {
    let line = " * ERROR: dev-lang/rust-1.75.0::gentoo failed (compile phase):";
    assert_eq!(
        match_emerge_line(line, None),
        EmergeLineAction::Failed { atom: "dev-lang/rust-1.75.0".to_string(), reason: line.to_string() }
    );
}

#[test]
fn missing_dependency_is_reported() {
    let line = r#"emerge: there are no ebuilds to satisfy "dev-libs/nothing"."#;
    assert_eq!(
        match_emerge_line(line, None),
        EmergeLineAction::Failed {
            atom: "dev-libs/nothing".to_string(),
            reason: format!("Missing dependency: {line}"),
        }
    );
}

#[test]
fn use_conflict_and_fetch_failure_name_the_current_package() {
    let line = "The following USE changes are necessary to proceed:";
    assert_eq!(
        match_emerge_line(line, Some("media-libs/mesa-24.0")),
        EmergeLineAction::Failed {
            atom: "media-libs/mesa-24.0".to_string(),
            reason: format!("USE flag conflict: {line}"),
        }
    );
    let line = "!!! Fetch failed for foo-1.0.tar.gz";
    assert_eq!(
        match_emerge_line(line, None),
        EmergeLineAction::Failed {
            atom: "unknown".to_string(),
            reason: format!("Fetch failure: {line}"),
        }
    );
}

#[test]
fn ordinary_line_is_ignored() {
    assert_eq!(match_emerge_line("checking for gcc... gcc", None), EmergeLineAction::Ignore);
    let caps = emerge_line_captures("checking for gcc... gcc");
    assert_eq!(caps.emerging, None);
    assert!(!caps.use_conflict);
}

#[test]
fn failed_packages_share_the_reason() {
    let atoms = strings(&["a/b", "c/d"]);
    let failed = failed_packages_for_atoms(&atoms, "boom");
    assert_eq!(failed.len(), 2);
    assert_eq!(failed[1].atom, "c/d");
    assert_eq!(failed[1].reason, "boom");
    assert_eq!(failed[1].build_log, None);
}

#[test]
fn failure_packages_prefer_structured_failures() {
    let requested = strings(&["a/b"]);
    let structured = vec![FailedPackage {
        atom: "x/y-1".to_string(),
        reason: "compile".to_string(),
        build_log: Some("log".to_string()),
    }];
    assert_eq!(failure_packages(structured.clone(), &requested, "exit"), structured);
    let fallback = failure_packages(Vec::new(), &requested, "exit");
    assert_eq!(fallback.len(), 1);
    assert_eq!(fallback[0].atom, "a/b");
    assert_eq!(fallback[0].reason, "exit");
}

#[test]
fn events_give_gpkg_paths() {
    let built = packages_from_events(&strings(&["dev-libs/foo-1.0"]));
    assert_eq!(built.len(), 1);
    assert_eq!(built[0].binpkg_path, "dev-libs/foo-1.0.gpkg.tar");
    assert_eq!(built[0].sha256, "");
    assert_eq!(built[0].size, 0);
}

fn meta(cpv: &str, path: &str, size: u64) -> PackageMeta {
    PackageMeta {
        cpv: cpv.to_string(),
        filename: path.rsplit('/').next().unwrap().to_string(),
        relative_path: path.to_string(),
        size,
        sha256: "ab".repeat(32),
        is_gpkg: true,
    }
}

#[test]
fn scanned_packages_of_the_build_are_reported() {
    let scanned = vec![
        meta("dev-libs/openssl-3.1.4", "dev-libs/openssl/openssl-3.1.4-1.gpkg.tar", 100),
        meta("app-misc/unrelated-2", "app-misc/unrelated/unrelated-2-1.gpkg.tar", 5),
        meta("dev-libs/libfoo-0.9", "dev-libs/libfoo/libfoo-0.9-1.gpkg.tar", 7),
    ];
    let requested = strings(&[">=dev-libs/openssl-3"]);
    let built = strings(&["dev-libs/libfoo-0.9"]);
    let out = completed_built_packages(Some(&scanned), &requested, &built);
    assert_eq!(out.len(), 2);
    assert_eq!(out[0].atom, "dev-libs/openssl-3.1.4");
    assert_eq!(out[0].binpkg_path, "dev-libs/openssl/openssl-3.1.4-1.gpkg.tar");
    assert_eq!(out[0].size, 100);
    assert_eq!(out[1].atom, "dev-libs/libfoo-0.9");
}

#[test]
fn no_match_or_no_scan_falls_back_to_events() {
    let scanned = vec![meta("app-misc/unrelated-2", "app-misc/unrelated/unrelated-2.gpkg.tar", 5)];
    let built = strings(&["dev-libs/foo-1.0"]);
    let out = completed_built_packages(Some(&scanned), &strings(&["dev-libs/foo"]), &built);
    assert_eq!(out.len(), 1);
    assert_eq!(out[0].binpkg_path, "dev-libs/foo-1.0.gpkg.tar");
    let out = completed_built_packages(None, &[], &built);
    assert_eq!(out.len(), 1);
    assert_eq!(out[0].atom, "dev-libs/foo-1.0");
}

#[test]
fn exit_reason_prints_the_signed_code() {
    assert_eq!(exit_failure_reason(1), "Worker exited with code 1");
    assert_eq!(exit_failure_reason(-9), "Worker exited with code -9");
    assert_eq!(exit_failure_reason(0), "Worker exited with code 0");
}

#[test]
fn oldest_pending_runs_first() {
    let entries = vec![
        QueueEntry { pending: false, created_at_millis: 1 },
        QueueEntry { pending: true, created_at_millis: 30 },
        QueueEntry { pending: true, created_at_millis: 20 },
        QueueEntry { pending: true, created_at_millis: 20 },
    ];
    assert_eq!(next_pending(&entries), Some(2));
    assert_eq!(next_pending(&entries[..1]), None);
    assert_eq!(next_pending(&[]), None);
}

#[test]
fn build_failure_reasons() {
    assert_eq!(build_failure_reason(&WaitOutcome::Exited(0)), None);
    assert_eq!(
        build_failure_reason(&WaitOutcome::Exited(2)).as_deref(),
        Some("Worker exited with code 2")
    );
    assert_eq!(
        build_failure_reason(&WaitOutcome::TimedOut(3600)).as_deref(),
        Some("Build exceeded configured timeout of 3600 seconds")
    );
    assert_eq!(
        build_failure_reason(&WaitOutcome::WaitFailed("socket closed".to_string())).as_deref(),
        Some("Failed to wait for worker container: socket closed")
    );
}

#[test]
fn worker_events_are_collected_in_order() {
    let events = vec![
        WorkerEvent::PackageBuilt { atom: "a/b-1".to_string(), duration_secs: 3 },
        WorkerEvent::Log,
        WorkerEvent::PackageFailed { atom: "c/d-2".to_string(), reason: "compile".to_string() },
        WorkerEvent::PackageBuilt { atom: "e/f-3".to_string(), duration_secs: 1 },
    ];
    let (built, failed) = collect_worker_events(&events);
    assert_eq!(built, strings(&["a/b-1", "e/f-3"]));
    assert_eq!(
        failed,
        vec![FailedPackage { atom: "c/d-2".to_string(), reason: "compile".to_string(), build_log: None }]
    );
}

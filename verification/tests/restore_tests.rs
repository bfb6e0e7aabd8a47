use remerge::restore::{
    check_download, collect_issues, parity_directory_matches, parity_file_facts_match,
    parity_symlink_facts_match, snapshot_file_facts_match, symlink_target_matches,
    verification_failed, PathCheck, PathFacts, RestoreError, RestoreSubject,
};

const DIGEST_ABC: &str = "ba7816bf8f01cfea414140de5dae2223b00361a396177a9cb410ff61f20015ad";

fn facts(is_file: bool, is_dir: bool, is_symlink: bool, len: u64, mtime_secs: i64) -> PathFacts {
    PathFacts { is_file, is_dir, is_symlink, len, mtime_secs }
}

#[test]
fn downloaded_blob_is_checked_by_size_then_digest() {
    assert_eq!(check_download(&RestoreSubject::ParityPath, "etc/a", 3, 3, "d", "d"), Ok(()));
    let err = check_download(&RestoreSubject::ParityPath, "etc/a", 2, 3, "x", "d").unwrap_err();
    assert_eq!(
        err.message(),
        "mismatched parity path etc/a: downloaded 2 byte(s) but expected 3"
    );
    let err = check_download(&RestoreSubject::ParitySymlink, "etc/l", 3, 3, "x", "d").unwrap_err();
    assert!(matches!(err, RestoreError::DigestMismatch { .. }));
    assert_eq!(err.message(), "mismatched parity symlink etc/l: expected digest d, got x");
    let snapshot = RestoreSubject::Snapshot { label: "distfile".to_string() };
    let err = check_download(&snapshot, "a.tar", 5, 3, "d", "d").unwrap_err();
    assert_eq!(err.message(), "mismatched distfile path a.tar: downloaded 5 byte(s) but expected 3");
}

#[test]
fn restored_path_mismatch_message() {
    assert_eq!(
        verification_failed(&RestoreSubject::ParityDirectory, "etc/portage"),
        "mismatched parity directory etc/portage: verification failed after restore"
    );
}

#[test]
fn on_disk_facts_decide_whether_a_restore_is_needed() {
    assert!(parity_directory_matches(Some(facts(false, true, false, 0, 7)), 7));
    assert!(!parity_directory_matches(Some(facts(true, false, false, 0, 7)), 7));
    assert!(!parity_directory_matches(None, 7));
    assert!(parity_file_facts_match(Some(facts(true, false, false, 3, 7)), 3, 7));
    assert!(!parity_file_facts_match(Some(facts(true, false, false, 3, 8)), 3, 7));
    assert!(snapshot_file_facts_match(Some(facts(true, false, false, 3, 7)), 3, 7));
    assert!(!snapshot_file_facts_match(Some(facts(false, true, false, 3, 7)), 3, 7));
    assert!(parity_symlink_facts_match(Some(facts(false, false, true, 0, 7)), 7));
    assert!(!parity_symlink_facts_match(Some(facts(true, false, false, 0, 7)), 7));
}

#[test]
fn symlink_target_is_compared_by_length_and_digest() {
    assert!(symlink_target_matches(b"abc", 3, DIGEST_ABC));
    assert!(!symlink_target_matches(b"abd", 3, DIGEST_ABC));
    assert!(!symlink_target_matches(b"abc", 4, DIGEST_ABC));
}

#[test]
fn issues_are_collected_in_order() {
    let checks = vec![
        PathCheck {
            subject: RestoreSubject::ParityDirectory,
            path: "etc".to_string(),
            outcome: Ok(true),
        },
        PathCheck {
            subject: RestoreSubject::ParitySymlink,
            path: "etc/l".to_string(),
            outcome: Ok(false),
        },
        PathCheck {
            subject: RestoreSubject::ParityPath,
            path: "etc/a".to_string(),
            outcome: Err("Failed to stat /etc/a".to_string()),
        },
    ];
    assert_eq!(
        collect_issues(&checks),
        Err(vec![
            "mismatched parity symlink etc/l: verification failed after restore".to_string(),
            "Failed to stat /etc/a".to_string(),
        ])
    );
    assert_eq!(collect_issues(&checks[..1].iter().map(|c| PathCheck {
        subject: c.subject.clone(),
        path: c.path.clone(),
        outcome: c.outcome.clone(),
    }).collect()), Ok(()));
}

use remerge::runtime::RuntimeError;
use remerge::snapshot::{
    check_distfile_ref, check_inline_ref, check_manifest_version, check_tree_digest,
    distfile_target, inline_tree_expectation, reference_digests, repo_file_target,
    repo_snapshot_dir, RepoSnapshotManifest, SnapshotEntry, SnapshotError, SnapshotManifest,
};
use remerge::strmap::StrMap;

fn entry(d: &str) -> SnapshotEntry {
    SnapshotEntry { digest: d.to_string() }
}

fn repo(files: &[(&str, &str)], tree: &str) -> RepoSnapshotManifest {
    let mut entries = StrMap::new();
    for (p, d) in files {
        entries.insert(p.to_string(), entry(d));
    }
    RepoSnapshotManifest { entries, tree_digest: tree.to_string() }
}

#[test]
fn references_are_every_blob_and_non_empty_tree_once() {
    let mut repos = StrMap::new();
    repos.insert("gentoo".to_string(), repo(&[("a/b/Manifest", "d2"), ("a/b/x.ebuild", "d1")], "t1"));
    repos.insert("local".to_string(), repo(&[("c/d/y.ebuild", "d1")], ""));
    let mut distfiles = StrMap::new();
    distfiles.insert("foo.tar.gz".to_string(), entry("d3"));
    let m = SnapshotManifest { repo_snapshots: repos, distfiles };
    let (blobs, trees) = reference_digests(&m);
    assert_eq!(blobs, vec!["d1".to_string(), "d2".to_string(), "d3".to_string()]);
    assert_eq!(trees, vec!["t1".to_string()]);
}

#[test]
fn materialization_targets() {
    assert_eq!(repo_snapshot_dir("/rt", "gentoo"), Ok("/rt/snapshots/repos/gentoo".to_string()));
    assert_eq!(
        repo_snapshot_dir("/rt", "../x"),
        Err(RuntimeError::InvalidFileName { name: "../x".to_string() })
    );
    assert_eq!(
        repo_file_target("/rt/snapshots/repos/gentoo", "dev-libs/foo//foo-1.ebuild"),
        Ok("/rt/snapshots/repos/gentoo/dev-libs/foo/foo-1.ebuild".to_string())
    );
    assert!(repo_file_target("/r", "../../etc/passwd").is_err());
    assert_eq!(distfile_target("/rt", "foo.tar.gz"), Ok("/rt/snapshots/distfiles/foo.tar.gz".to_string()));
    assert!(distfile_target("/rt", "a/b").is_err());
}

#[test]
fn manifest_version_other_than_one_is_refused() {
    assert_eq!(check_manifest_version(1), Ok(()));
    let err = check_manifest_version(2).unwrap_err();
    assert_eq!(err, SnapshotError::UnsupportedManifestVersion { version: 2 });
    assert_eq!(err.message(), "unsupported snapshot manifest version 2");
}

#[test]
fn inline_payloads_must_match_their_references() {
    assert_eq!(check_inline_ref("gentoo", "aa", None), Ok(()));
    assert_eq!(check_inline_ref("gentoo", "aa", Some("aa")), Ok(()));
    let err = check_inline_ref("gentoo", "aa", Some("bb")).unwrap_err();
    assert_eq!(err.message(), "repo snapshot refs for 'gentoo' do not match inline payloads");
    assert_eq!(check_distfile_ref("a.tar", "aa", Some("aa")), Ok(()));
    let err = check_distfile_ref("a.tar", "aa", Some("bb")).unwrap_err();
    assert_eq!(err.message(), "distfile snapshot digest mismatch for 'a.tar'");
}

#[test]
fn tree_expectation_prefers_the_submitted_manifest() {
    assert_eq!(inline_tree_expectation(Some("t1"), Some("t2")), Some("t1"));
    assert_eq!(inline_tree_expectation(Some(""), Some("t2")), Some("t2"));
    assert_eq!(inline_tree_expectation(None, Some("t2")), Some("t2"));
    assert_eq!(inline_tree_expectation(None, Some("")), None);
    assert_eq!(inline_tree_expectation(None, None), None);
    assert_eq!(check_tree_digest("gentoo", "t1", None), Ok(()));
    let err = check_tree_digest("gentoo", "t1", Some("t2")).unwrap_err();
    assert_eq!(err, SnapshotError::TreeMismatch { repo: "gentoo".to_string() });
    assert_eq!(err.message(), "repo snapshot tree digest mismatch for 'gentoo'");
}

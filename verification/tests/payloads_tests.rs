use remerge::payloads::{snapshot_blob_payloads, PayloadError, SnapshotPayloadSources};
use remerge::snapshot::{RepoSnapshotManifest, SnapshotEntry, SnapshotManifest};
use remerge::strmap::StrMap;

fn map_of<V>(pairs: Vec<(&str, V)>) -> StrMap<V> {
    let mut m = StrMap::new();
    for (k, v) in pairs {
        m.insert(k.to_string(), v);
    }
    m
}

fn empty_manifest() -> SnapshotManifest {
    SnapshotManifest { repo_snapshots: StrMap::new(), distfiles: StrMap::new() }
}

fn demo_sources() -> SnapshotPayloadSources {
    SnapshotPayloadSources {
        manifest: empty_manifest(),
        repo_snapshots: map_of(vec![(
            "local-overlay",
            map_of(vec![("dev-libs/demo/demo-1.0.ebuild", "EAPI=8\n".to_string())]),
        )]),
        repo_snapshot_refs: map_of(vec![(
            "local-overlay",
            map_of(vec![("dev-libs/demo/demo-1.0.ebuild", "abc123".to_string())]),
        )]),
        distfile_snapshots: map_of(vec![("demo-1.0.tar.xz", b"demo-distfile".to_vec())]),
        distfile_snapshot_refs: map_of(vec![("demo-1.0.tar.xz", "def456".to_string())]),
    }
}

#[test]
fn snapshot_blob_payloads_collects_repo_and_distfile_bytes_once_per_digest() {
    let payloads = snapshot_blob_payloads(&demo_sources()).expect("snapshot payloads");
    assert_eq!(payloads.get("abc123").unwrap(), b"EAPI=8\n");
    assert_eq!(payloads.get("def456").unwrap(), b"demo-distfile");
    assert_eq!(payloads.len(), 2);
}

#[test]
fn manifest_digest_is_preferred_over_the_reference() {
    let mut sources = demo_sources();
    let mut entries = StrMap::new();
    entries.insert(
        "dev-libs/demo/demo-1.0.ebuild".to_string(),
        SnapshotEntry { digest: "fromman".to_string() },
    );
    sources.manifest.repo_snapshots.insert(
        "local-overlay".to_string(),
        RepoSnapshotManifest { entries, tree_digest: String::new() },
    );
    let payloads = snapshot_blob_payloads(&sources).unwrap();
    assert_eq!(payloads.get("fromman").unwrap(), b"EAPI=8\n");
    assert!(payloads.get("abc123").is_none());
}

#[test]
fn payload_without_digest_is_refused() {
    let mut sources = demo_sources();
    sources.repo_snapshot_refs = StrMap::new();
    assert_eq!(
        snapshot_blob_payloads(&sources).unwrap_err(),
        PayloadError::MissingRepoDigest {
            repo: "local-overlay".to_string(),
            path: "dev-libs/demo/demo-1.0.ebuild".to_string(),
        }
    );
    let mut sources = demo_sources();
    sources.distfile_snapshot_refs = StrMap::new();
    assert_eq!(
        snapshot_blob_payloads(&sources).unwrap_err(),
        PayloadError::MissingDistfileDigest { name: "demo-1.0.tar.xz".to_string() }
    );
}

#[test]
fn same_digest_must_carry_the_same_bytes() {
    let mut sources = demo_sources();
    sources.distfile_snapshot_refs = map_of(vec![("demo-1.0.tar.xz", "abc123".to_string())]);
    assert_eq!(
        snapshot_blob_payloads(&sources).unwrap_err(),
        PayloadError::DigestCollision { digest: "abc123".to_string() }
    );
    let mut sources = demo_sources();
    sources.distfile_snapshots = map_of(vec![("demo-1.0.tar.xz", b"EAPI=8\n".to_vec())]);
    sources.distfile_snapshot_refs = map_of(vec![("demo-1.0.tar.xz", "abc123".to_string())]);
    let payloads = snapshot_blob_payloads(&sources).unwrap();
    assert_eq!(payloads.len(), 1);
}

use remerge::blob_store::{
    blob_path, check_blob_for_digest, check_blob_metadata, encoded_blob_path, join_path,
    metadata_path, metadata_record_digest, sha256_hex, validate_digest, BlobEncoding,
    BlobStoreError,
};
use remerge::tree_store::{encoded_tree_path, tree_metadata_path, tree_path};

const EMPTY_SHA: &str = "e3b0c44298fc1c149afbf4c8996fb92427ae41e4649b934ca495991b7852b855";

#[test]
fn blob_paths_shard_by_digest_prefix() {
    let d = EMPTY_SHA;
    assert_eq!(
        blob_path("/state", d).unwrap(),
        format!("/state/blobs/e3/{}", &d[2..])
    );
    assert_eq!(
        encoded_blob_path("/state", d, BlobEncoding::Zstd).unwrap(),
        format!("/state/blobs/e3/{}.zst", &d[2..])
    );
    assert_eq!(
        metadata_path("/state/", d).unwrap(),
        format!("/state/blobs/e3/{}.meta.json", &d[2..])
    );
    assert!(matches!(blob_path("/state", "xyz"), Err(BlobStoreError::InvalidDigest { .. })));
    assert!(validate_digest(&d.to_uppercase()).is_ok());
    assert!(validate_digest(&d[1..]).is_err());
}

#[test]
fn tree_paths_live_under_trees() {
    let d = EMPTY_SHA;
    assert_eq!(tree_path("/s", d).unwrap(), format!("/s/trees/{d}.json"));
    assert_eq!(
        encoded_tree_path("/s", d, BlobEncoding::Zstd).unwrap(),
        format!("/s/trees/{d}.zst")
    );
    assert_eq!(tree_metadata_path("/s", d).unwrap(), format!("/s/trees/{d}.meta.json"));
    assert!(tree_path("/s", "../etc").is_err());
}

#[test]
fn sha256_hex_names_blobs() {
    assert_eq!(sha256_hex(b""), EMPTY_SHA);
    assert_eq!(
        sha256_hex(b"abc"),
        "ba7816bf8f01cfea414140de5dae2223b00361a396177a9cb410ff61f20015ad"
    );
    assert!(check_blob_for_digest(EMPTY_SHA, b"").is_ok());
    assert_eq!(
        check_blob_for_digest(EMPTY_SHA, b"abc"),
        Err(BlobStoreError::DigestMismatch {
            expected: EMPTY_SHA.to_string(),
            actual: "ba7816bf8f01cfea414140de5dae2223b00361a396177a9cb410ff61f20015ad".to_string(),
        })
    );
}

#[test]
fn blob_metadata_checks_digest_then_size() {
    assert!(check_blob_metadata("d", 3, "d", 3).is_ok());
    assert_eq!(
        check_blob_metadata("d", 3, "d", 4),
        Err(BlobStoreError::MetadataSizeMismatch { expected: 3, got: 4 })
    );
    assert!(matches!(
        check_blob_metadata("d", 3, "e", 4),
        Err(BlobStoreError::MetadataDigestMismatch { .. })
    ));
    assert_eq!(metadata_record_digest("ab", "cdef.meta.json"), Some("abcdef".to_string()));
    assert_eq!(metadata_record_digest("ab", "cdef.zst"), None);
}

#[test]
fn path_join_follows_std() {
    assert_eq!(join_path("", "a"), "a");
    assert_eq!(join_path("/x/", "a"), "/x/a");
    assert_eq!(join_path("/x", "/a"), "/a");
    assert_eq!(join_path("x", "a"), "x/a");
}

//! Layout of stored snapshot trees: a tree manifest is kept under its
//! digest as `trees/<digest>.json`, with encoded variants and metadata
//! beside it.
use vstd::prelude::*;

use crate::blob_store::{
    encoding_extension, join_path, path_join, valid_digest, validate_digest, BlobEncoding,
    BlobStoreError,
};
use crate::strmap::StrMap;
use crate::text::{chars_of, concat_chars, string_of};

verus! {

/// Subdirectory of the state directory that holds trees.
pub const TREES_SUBDIR: &'static str = "trees";

/// A snapshot tree: relative paths mapped to blob digests.
pub struct TreeManifest {
    pub entries: StrMap<String>,
}

/// A tree stored under its digest.
#[derive(Debug, Clone, PartialEq, Eq)]
pub struct StoredTree {
    pub digest: String,
    pub path: String,
}

/// `<state_dir>/trees/<digest><suffix>`.
pub open spec fn tree_file_of(state_dir: Seq<char>, digest: Seq<char>, suffix: Seq<char>) -> Seq<
    char,
> {
    path_join(path_join(state_dir, "trees"@), digest + suffix)
}

fn tree_file(state_dir: &str, digest: &str, suffix: &str) -> (r: String)
    ensures
        r@ == tree_file_of(state_dir@, digest@, suffix@),
{
    let name = concat_chars(chars_of(digest).as_slice(), chars_of(suffix).as_slice());
    let base = join_path(state_dir, TREES_SUBDIR);
    join_path(base.as_str(), string_of(name.as_slice()).as_str())
}

/// The path of a tree manifest.
pub fn tree_path(state_dir: &str, digest: &str) -> (r: Result<String, BlobStoreError>)
    ensures
        r.is_ok() == valid_digest(digest@),
        r matches Ok(p) ==> p@ == tree_file_of(state_dir@, digest@, ".json"@),
        r matches Err(e) ==> e is InvalidDigest,
{
    validate_digest(digest)?;
    Ok(tree_file(state_dir, digest, ".json"))
}

/// The path of an encoded variant of a tree manifest.
pub fn encoded_tree_path(state_dir: &str, digest: &str, encoding: BlobEncoding) -> (r: Result<
    String,
    BlobStoreError,
>)
    ensures
        r.is_ok() == valid_digest(digest@),
        r matches Ok(p) ==> p@ == tree_file_of(
            state_dir@,
            digest@,
            "."@ + encoding_extension(encoding),
        ),
        r matches Err(e) ==> e is InvalidDigest,
{
    validate_digest(digest)?;
    let mut suffix: Vec<char> = Vec::new();
    suffix.push('.');
    let ext = chars_of(encoding.file_extension());
    let s = concat_chars(suffix.as_slice(), ext.as_slice());
    proof {
        reveal_strlit(".");
    }
    assert(s@ =~= "."@ + encoding_extension(encoding));
    Ok(tree_file(state_dir, digest, string_of(s.as_slice()).as_str()))
}

/// The path of a tree's metadata.
pub fn tree_metadata_path(state_dir: &str, digest: &str) -> (r: Result<String, BlobStoreError>)
    ensures
        r.is_ok() == valid_digest(digest@),
        r matches Ok(p) ==> p@ == tree_file_of(state_dir@, digest@, ".meta.json"@),
        r matches Err(e) ==> e is InvalidDigest,
{
    validate_digest(digest)?;
    Ok(tree_file(state_dir, digest, ".meta.json"))
}

} // verus!

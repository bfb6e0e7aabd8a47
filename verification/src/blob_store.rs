//! Content-addressed blob store layout: where a blob, its encoded variants
//! and its metadata live under the state directory, and the checks that
//! keep a stored blob equal to its SHA-256 digest.
use vstd::prelude::*;

use crate::text::{
    all_digits, chars_of, concat_chars, ends_with, has_suffix, is_ascii_hex, is_hex_digit,
    string_of, sub_chars,
};

verus! {

/// Subdirectory of the state directory that holds blobs.
pub const BLOBS_SUBDIR: &'static str = "blobs";

/// Encodings in which a blob may be stored beside its raw bytes.
#[derive(Debug, Clone, Copy, PartialEq, Eq, Structural, PartialOrd, Ord, Hash)]
pub enum BlobEncoding {
    Zstd,
}

pub open spec fn encoding_extension(e: BlobEncoding) -> Seq<char> {
    match e {
        BlobEncoding::Zstd => "zst"@,
    }
}

impl BlobEncoding {
    /// File extension of the encoded variant.
    pub fn file_extension(self) -> (r: &'static str)
        ensures
            r@ == encoding_extension(self),
    {
        match self {
            BlobEncoding::Zstd => "zst",
        }
    }
}

/// A blob stored under its digest.
#[derive(Debug, Clone, PartialEq, Eq)]
pub struct StoredBlob {
    pub digest: String,
    pub path: String,
}

/// A stored blob and whether this store wrote it (rather than finding it
/// already present).
#[derive(Debug, Clone, PartialEq, Eq)]
pub struct VerifiedBlobStoreResult {
    pub blob: StoredBlob,
    pub uploaded: bool,
}

/// An encoded variant written beside a blob.
#[derive(Debug, Clone, PartialEq, Eq)]
pub struct StoredEncodedBlobVariant {
    pub digest: String,
    pub encoding: BlobEncoding,
    pub path: String,
    pub encoded_size_bytes: u64,
}

/// Why the blob store refused a request.
#[derive(Debug, Clone, PartialEq, Eq)]
pub enum BlobStoreError {
    /// The digest is not 64 hexadecimal digits.
    InvalidDigest { digest: String },
    /// The bytes hash to another digest.
    DigestMismatch { expected: String, actual: String },
    /// The stored metadata names another digest.
    MetadataDigestMismatch { expected: String, got: String },
    /// The stored metadata records another raw size.
    MetadataSizeMismatch { expected: u64, got: u64 },
}

/// `Path::join`: a relative `b` is appended after a separator, an absolute
/// one replaces `a`.
pub open spec fn path_join(a: Seq<char>, b: Seq<char>) -> Seq<char> {
    if b.len() > 0 && b[0] == '/' {
        b
    } else if a.len() == 0 || a.last() == '/' {
        a + b
    } else {
        a + "/"@ + b
    }
}

/// `Path::join` on strings.
pub fn join_path(a: &str, b: &str) -> (r: String)
    ensures
        r@ == path_join(a@, b@),
{
    let x = chars_of(a);
    let y = chars_of(b);
    if y.len() > 0 && y[0] == '/' {
        return string_of(y.as_slice());
    }
    if x.len() == 0 || x[x.len() - 1] == '/' {
        let r = concat_chars(x.as_slice(), y.as_slice());
        return string_of(r.as_slice());
    }
    let mut sep: Vec<char> = Vec::new();
    sep.push('/');
    proof {
        reveal_strlit("/");
    }
    let xs = concat_chars(x.as_slice(), sep.as_slice());
    let r = concat_chars(xs.as_slice(), y.as_slice());
    assert(r@ =~= a@ + "/"@ + b@);
    string_of(r.as_slice())
}

/// A SHA-256 digest as the store writes it: 64 hexadecimal digits.
pub open spec fn valid_digest(d: Seq<char>) -> bool {
    d.len() == 64 && forall|i: int| 0 <= i < d.len() ==> is_ascii_hex(#[trigger] d[i])
}

/// Accepts a SHA-256 digest of 64 hexadecimal digits.
pub fn validate_digest(digest: &str) -> (r: Result<(), BlobStoreError>)
    ensures
        r.is_ok() == valid_digest(digest@),
        r matches Err(e) ==> (e matches BlobStoreError::InvalidDigest { digest: d } && d@
            == digest@),
{
    let d = chars_of(digest);
    let mut ok = d.len() == 64;
    let mut i: usize = 0;
    while i < d.len()
        invariant
            i <= d.len(),
            d@ == digest@,
            ok == (d.len() == 64 && forall|j: int| 0 <= j < i ==> is_ascii_hex(#[trigger] d@[j])),
        decreases d.len() - i,
    {
        if !is_hex_digit(d[i]) {
            ok = false;
        }
        i += 1;
    }
    if ok {
        Ok(())
    } else {
        Err(BlobStoreError::InvalidDigest { digest: string_of(d.as_slice()) })
    }
}

/// Where the raw bytes of `digest` live: `blobs/<first two digits>/<rest>`.
pub open spec fn blob_path_of(state_dir: Seq<char>, digest: Seq<char>) -> Seq<char> {
    path_join(path_join(path_join(state_dir, "blobs"@), digest.take(2)), digest.skip(2))
}

/// The path of the raw bytes of a blob.
pub fn blob_path(state_dir: &str, digest: &str) -> (r: Result<String, BlobStoreError>)
    ensures
        r.is_ok() == valid_digest(digest@),
        r matches Ok(p) ==> p@ == blob_path_of(state_dir@, digest@),
        r matches Err(e) ==> e is InvalidDigest,
{
    validate_digest(digest)?;
    let d = chars_of(digest);
    let shard = string_of(sub_chars(d.as_slice(), 0, 2).as_slice());
    let name = string_of(sub_chars(d.as_slice(), 2, d.len()).as_slice());
    let base = join_path(state_dir, BLOBS_SUBDIR);
    let sharded = join_path(base.as_str(), shard.as_str());
    Ok(join_path(sharded.as_str(), name.as_str()))
}

/// The path of an encoded variant: the blob path with the encoding's
/// extension.
pub fn encoded_blob_path(state_dir: &str, digest: &str, encoding: BlobEncoding) -> (r: Result<
    String,
    BlobStoreError,
>)
    ensures
        r.is_ok() == valid_digest(digest@),
        r matches Ok(p) ==> p@ == blob_path_of(state_dir@, digest@) + "."@ + encoding_extension(
            encoding,
        ),
        r matches Err(e) ==> e is InvalidDigest,
{
    let path = blob_path(state_dir, digest)?;
    let mut out = chars_of(path.as_str());
    out.push('.');
    let ext = chars_of(encoding.file_extension());
    let r = concat_chars(out.as_slice(), ext.as_slice());
    proof {
        reveal_strlit(".");
    }
    assert(r@ =~= path@ + "."@ + encoding_extension(encoding));
    Ok(string_of(r.as_slice()))
}

/// The path of a blob's metadata: the blob path with `.meta.json`.
pub fn metadata_path(state_dir: &str, digest: &str) -> (r: Result<String, BlobStoreError>)
    ensures
        r.is_ok() == valid_digest(digest@),
        r matches Ok(p) ==> p@ == blob_path_of(state_dir@, digest@) + ".meta.json"@,
        r matches Err(e) ==> e is InvalidDigest,
{
    let path = blob_path(state_dir, digest)?;
    let r = concat_chars(chars_of(path.as_str()).as_slice(), chars_of(".meta.json").as_slice());
    Ok(string_of(r.as_slice()))
}

/// The SHA-256 hash of a byte sequence (`sha2::Sha256::digest`).
pub uninterp spec fn sha256_of(bytes: Seq<u8>) -> Seq<u8>;

/// Hashes `bytes` with `sha2::Sha256::digest`.
///
/// Trusted: the result is the value named by `sha256_of` for the bytes, and
/// it is 32 bytes long, as SHA-256 output always is.
#[verifier::external_body]
fn sha256(bytes: &[u8]) -> (r: Vec<u8>)
    ensures
        r@ == sha256_of(bytes@),
        r@.len() == 32,
{
    <sha2::Sha256 as sha2::Digest>::digest(bytes).to_vec()
}

/// The lowercase hexadecimal digit of a value below sixteen.
pub open spec fn hex_digit(v: int) -> char {
    if v < 10 {
        ((v + 48) as u32) as char
    } else {
        ((v + 87) as u32) as char
    }
}

/// Every byte as two lowercase hexadecimal digits, high nibble first.
pub open spec fn hex_lower(bytes: Seq<u8>) -> Seq<char>
    decreases bytes.len(),
{
    if bytes.len() == 0 {
        Seq::empty()
    } else {
        hex_lower(bytes.drop_last()) + seq![
            hex_digit(bytes.last() as int / 16),
            hex_digit(bytes.last() as int % 16),
        ]
    }
}

/// Encodes bytes as lowercase hexadecimal with `hex::encode`.
///
/// Trusted: the crate documents that each byte becomes two lowercase hex
/// digits, which is what `hex_lower` states.
#[verifier::external_body]
fn hex_encode(bytes: &[u8]) -> (r: String)
    ensures
        r@ == hex_lower(bytes@),
{
    hex::encode(bytes)
}

/// The lowercase hex SHA-256 digest of `bytes`, as the store names blobs.
pub fn sha256_hex(bytes: &[u8]) -> (r: String)
    ensures
        r@ == hex_lower(sha256_of(bytes@)),
{
    let d = sha256(bytes);
    hex_encode(d.as_slice())
}

/// Checks bytes handed in for `digest` before they are stored: the digest
/// must be well formed and the bytes must hash to it.
pub fn check_blob_for_digest(digest: &str, bytes: &[u8]) -> (r: Result<(), BlobStoreError>)
    ensures
        r.is_ok() == (valid_digest(digest@) && hex_lower(sha256_of(bytes@)) == digest@),
        !valid_digest(digest@) ==> (r matches Err(e) && e is InvalidDigest),
        valid_digest(digest@) && hex_lower(sha256_of(bytes@)) != digest@ ==> (r matches Err(
            BlobStoreError::DigestMismatch { expected, actual },
        ) && expected@ == digest@ && actual@ == hex_lower(sha256_of(bytes@))),
{
    validate_digest(digest)?;
    let actual = sha256_hex(bytes);
    let a = chars_of(actual.as_str());
    let d = chars_of(digest);
    if !crate::text::eq_chars(a.as_slice(), d.as_slice()) {
        return Err(
            BlobStoreError::DigestMismatch {
                expected: string_of(d.as_slice()),
                actual: string_of(a.as_slice()),
            },
        );
    }
    Ok(())
}

/// Checks metadata found on disk against the blob it describes.
pub fn check_blob_metadata(
    digest: &str,
    raw_size_bytes: u64,
    canonical_digest: &str,
    recorded_size_bytes: u64,
) -> (r: Result<(), BlobStoreError>)
    ensures
        r.is_ok() == (canonical_digest@ == digest@ && recorded_size_bytes == raw_size_bytes),
        canonical_digest@ != digest@ ==> (r matches Err(
            BlobStoreError::MetadataDigestMismatch { expected, got },
        ) && expected@ == digest@ && got@ == canonical_digest@),
        canonical_digest@ == digest@ && recorded_size_bytes != raw_size_bytes ==> r
            == Err::<(), BlobStoreError>(
            BlobStoreError::MetadataSizeMismatch {
                expected: raw_size_bytes,
                got: recorded_size_bytes,
            },
        ),
{
    let c = chars_of(canonical_digest);
    let d = chars_of(digest);
    if !crate::text::eq_chars(c.as_slice(), d.as_slice()) {
        return Err(
            BlobStoreError::MetadataDigestMismatch {
                expected: string_of(d.as_slice()),
                got: string_of(c.as_slice()),
            },
        );
    }
    if recorded_size_bytes != raw_size_bytes {
        return Err(
            BlobStoreError::MetadataSizeMismatch {
                expected: raw_size_bytes,
                got: recorded_size_bytes,
            },
        );
    }
    Ok(())
}

/// The digest of a metadata file found in shard directory `shard`: the
/// shard name followed by the file name without `.meta.json`; `None` for
/// other files.
pub fn metadata_record_digest(shard: &str, file_name: &str) -> (r: Option<String>)
    ensures
        ends_with(file_name@, ".meta.json"@) ==> (r matches Some(d) && d@ == shard@
            + file_name@.take(file_name@.len() - 10)),
        !ends_with(file_name@, ".meta.json"@) ==> r.is_none(),
{
    let n = chars_of(file_name);
    let suffix = chars_of(".meta.json");
    proof {
        reveal_strlit(".meta.json");
    }
    if !has_suffix(n.as_slice(), suffix.as_slice()) {
        return None;
    }
    let stem = sub_chars(n.as_slice(), 0, n.len() - 10);
    let r = concat_chars(chars_of(shard).as_slice(), stem.as_slice());
    Some(string_of(r.as_slice()))
}

} // verus!

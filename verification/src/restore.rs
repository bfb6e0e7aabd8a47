//! The checks the client makes while it restores parity files, parity
//! symlinks and snapshot files from stored blobs: whether what is on disk
//! already matches the manifest entry, whether a downloaded blob is the one
//! the entry names, and what is reported when a restored path still differs.
use vstd::prelude::*;

use crate::blob_store::{hex_lower, sha256_hex, sha256_of};
use crate::text::{chars_of, concat_chars, decimal, eq_chars, string_of, u64_to_decimal};

verus! {

/// What kind of path a restore step works on.
#[derive(Debug, Clone, PartialEq, Eq)]
pub enum RestoreSubject {
    ParityDirectory,
    ParitySymlink,
    ParityPath,
    /// A snapshot file, with the label of its snapshot kind.
    Snapshot { label: String },
}

/// The words that name a restore subject in messages.
pub open spec fn subject_text(s: RestoreSubject) -> Seq<char> {
    match s {
        RestoreSubject::ParityDirectory => "parity directory"@,
        RestoreSubject::ParitySymlink => "parity symlink"@,
        RestoreSubject::ParityPath => "parity path"@,
        RestoreSubject::Snapshot { label } => label@ + " path"@,
    }
}

fn subject_words(s: &RestoreSubject) -> (r: Vec<char>)
    ensures
        r@ == subject_text(*s),
{
    match s {
        RestoreSubject::ParityDirectory => chars_of("parity directory"),
        RestoreSubject::ParitySymlink => chars_of("parity symlink"),
        RestoreSubject::ParityPath => chars_of("parity path"),
        RestoreSubject::Snapshot { label } => concat_chars(
            chars_of(label.as_str()).as_slice(),
            chars_of(" path").as_slice(),
        ),
    }
}

/// Why a restored path is refused.
#[derive(Debug, Clone, PartialEq, Eq)]
pub enum RestoreError {
    /// The downloaded blob has another length than the entry.
    SizeMismatch { subject: RestoreSubject, path: String, downloaded: u64, expected: u64 },
    /// The downloaded blob has another digest than the entry.
    DigestMismatch { subject: RestoreSubject, path: String, expected: String, got: String },
}

/// The text of a restore error, as the client reports it.
pub open spec fn restore_error_text(e: RestoreError) -> Seq<char> {
    match e {
        RestoreError::SizeMismatch { subject, path, downloaded, expected } => "mismatched "@
            + subject_text(subject) + " "@ + path@ + ": downloaded "@ + decimal(downloaded as nat)
            + " byte(s) but expected "@ + decimal(expected as nat),
        RestoreError::DigestMismatch { subject, path, expected, got } => "mismatched "@
            + subject_text(subject) + " "@ + path@ + ": expected digest "@ + expected@ + ", got "@
            + got@,
    }
}

fn push_text(out: &mut Vec<char>, s: &[char])
    ensures
        final(out)@ == old(out)@ + s@,
{
    crate::text::append_chars(out, s);
}

fn mismatch_head(subject: &RestoreSubject, path: &str) -> (r: Vec<char>)
    ensures
        r@ == "mismatched "@ + subject_text(*subject) + " "@ + path@,
{
    let mut out = chars_of("mismatched ");
    push_text(&mut out, subject_words(subject).as_slice());
    push_text(&mut out, chars_of(" ").as_slice());
    push_text(&mut out, chars_of(path).as_slice());
    out
}

impl RestoreError {
    /// The error's text.
    pub fn message(&self) -> (r: String)
        ensures
            r@ == restore_error_text(*self),
    {
        match self {
            RestoreError::SizeMismatch { subject, path, downloaded, expected } => {
                let mut out = mismatch_head(subject, path.as_str());
                push_text(&mut out, chars_of(": downloaded ").as_slice());
                push_text(&mut out, u64_to_decimal(*downloaded).as_slice());
                push_text(&mut out, chars_of(" byte(s) but expected ").as_slice());
                push_text(&mut out, u64_to_decimal(*expected).as_slice());
                string_of(out.as_slice())
            },
            RestoreError::DigestMismatch { subject, path, expected, got } => {
                let mut out = mismatch_head(subject, path.as_str());
                push_text(&mut out, chars_of(": expected digest ").as_slice());
                push_text(&mut out, chars_of(expected.as_str()).as_slice());
                push_text(&mut out, chars_of(", got ").as_slice());
                push_text(&mut out, chars_of(got.as_str()).as_slice());
                string_of(out.as_slice())
            },
        }
    }
}

/// The message for a path that still differs from its entry after the
/// restore.
pub open spec fn verification_failed_text(subject: RestoreSubject, path: Seq<char>) -> Seq<char> {
    "mismatched "@ + subject_text(subject) + " "@ + path + ": verification failed after restore"@
}

/// Reports a path that still differs from its entry after the restore.
pub fn verification_failed(subject: &RestoreSubject, path: &str) -> (r: String)
    ensures
        r@ == verification_failed_text(*subject, path@),
{
    let mut out = mismatch_head(subject, path);
    push_text(&mut out, chars_of(": verification failed after restore").as_slice());
    string_of(out.as_slice())
}

/// Checks a downloaded blob against the entry it restores: first its
/// length, then its digest.
pub fn check_download(
    subject: &RestoreSubject,
    path: &str,
    downloaded_len: u64,
    expected_size: u64,
    digest: &str,
    expected_digest: &str,
) -> (r: Result<(), RestoreError>)
    ensures
        r is Ok <==> (downloaded_len == expected_size && digest@ == expected_digest@),
        downloaded_len != expected_size ==> (r matches Err(
            RestoreError::SizeMismatch { subject: s, path: p, downloaded, expected },
        ) && s == *subject && p@ == path@ && downloaded == downloaded_len && expected
            == expected_size),
        downloaded_len == expected_size && digest@ != expected_digest@ ==> (r matches Err(
            RestoreError::DigestMismatch { subject: s, path: p, expected, got },
        ) && s == *subject && p@ == path@ && expected@ == expected_digest@ && got@ == digest@),
{
    if downloaded_len != expected_size {
        return Err(
            RestoreError::SizeMismatch {
                subject: copy_subject(subject),
                path: string_of(chars_of(path).as_slice()),
                downloaded: downloaded_len,
                expected: expected_size,
            },
        );
    }
    if !eq_chars(chars_of(digest).as_slice(), chars_of(expected_digest).as_slice()) {
        return Err(
            RestoreError::DigestMismatch {
                subject: copy_subject(subject),
                path: string_of(chars_of(path).as_slice()),
                expected: string_of(chars_of(expected_digest).as_slice()),
                got: string_of(chars_of(digest).as_slice()),
            },
        );
    }
    Ok(())
}

fn copy_subject(s: &RestoreSubject) -> (r: RestoreSubject)
    ensures
        r == *s,
{
    match s {
        RestoreSubject::ParityDirectory => RestoreSubject::ParityDirectory,
        RestoreSubject::ParitySymlink => RestoreSubject::ParitySymlink,
        RestoreSubject::ParityPath => RestoreSubject::ParityPath,
        RestoreSubject::Snapshot { label } => RestoreSubject::Snapshot { label: label.clone() },
    }
}

/// What the client learned of a path on disk (`symlink_metadata` for
/// directories and symlinks, `metadata` for files).
#[derive(Debug, Clone, Copy, PartialEq, Eq)]
pub struct PathFacts {
    pub is_file: bool,
    pub is_dir: bool,
    pub is_symlink: bool,
    pub len: u64,
    pub mtime_secs: i64,
}

/// Whether a parity directory needs no restore: it is a directory with the
/// entry's mtime (`None`: the path does not exist).
pub fn parity_directory_matches(facts: Option<PathFacts>, mtime_secs: i64) -> (r: bool)
    ensures
        r == (facts matches Some(f) && f.is_dir && f.mtime_secs == mtime_secs),
{
    match facts {
        Some(f) => f.is_dir && f.mtime_secs == mtime_secs,
        None => false,
    }
}

/// Whether the metadata of a parity file allows it to match its entry, so
/// that its digest is worth computing.
pub fn parity_file_facts_match(facts: Option<PathFacts>, size: u64, mtime_secs: i64) -> (r: bool)
    ensures
        r == (facts matches Some(f) && f.len == size && f.mtime_secs == mtime_secs),
{
    match facts {
        Some(f) => f.len == size && f.mtime_secs == mtime_secs,
        None => false,
    }
}

/// Whether the metadata of a snapshot file allows it to match its entry:
/// a regular file with the entry's length and mtime.
pub fn snapshot_file_facts_match(facts: Option<PathFacts>, size: u64, mtime_secs: i64) -> (r: bool)
    ensures
        r == (facts matches Some(f) && f.is_file && f.len == size && f.mtime_secs == mtime_secs),
{
    match facts {
        Some(f) => f.is_file && f.len == size && f.mtime_secs == mtime_secs,
        None => false,
    }
}

/// Whether the metadata of a parity symlink allows it to match its entry:
/// a symlink with the entry's mtime.
pub fn parity_symlink_facts_match(facts: Option<PathFacts>, mtime_secs: i64) -> (r: bool)
    ensures
        r == (facts matches Some(f) && f.is_symlink && f.mtime_secs == mtime_secs),
{
    match facts {
        Some(f) => f.is_symlink && f.mtime_secs == mtime_secs,
        None => false,
    }
}

/// Whether the target of a symlink, as bytes, is the one an entry records:
/// the same length and the same SHA-256 digest.
pub fn symlink_target_matches(target: &[u8], size: u64, digest: &str) -> (r: bool)
    ensures
        r == (target@.len() == size && hex_lower(sha256_of(target@)) == digest@),
{
    if target.len() as u64 != size {
        return false;
    }
    let actual = sha256_hex(target);
    eq_chars(chars_of(actual.as_str()).as_slice(), chars_of(digest).as_slice())
}

/// The outcome of checking one restored path: it matches, it differs, or
/// checking it failed with this message.
#[derive(Debug, PartialEq, Eq)]
pub struct PathCheck {
    pub subject: RestoreSubject,
    pub path: String,
    pub outcome: Result<bool, String>,
}

/// The issue a path check reports, if any.
pub open spec fn check_issue(c: PathCheck) -> Option<Seq<char>> {
    match c.outcome {
        Ok(true) => None,
        Ok(false) => Some(verification_failed_text(c.subject, c.path@)),
        Err(e) => Some(e@),
    }
}

/// The issues of a list of path checks, in order.
pub open spec fn issues_of(cs: Seq<PathCheck>) -> Seq<Seq<char>>
    decreases cs.len(),
{
    if cs.len() == 0 {
        Seq::empty()
    } else {
        let rest = issues_of(cs.drop_last());
        match check_issue(cs.last()) {
            Some(m) => rest.push(m),
            None => rest,
        }
    }
}

/// Collects the issues of the checks made after a parity restore: every
/// mismatch and every failed check, in order; no issue at all passes.
pub fn collect_issues(checks: &Vec<PathCheck>) -> (r: Result<(), Vec<String>>)
    ensures
        issues_of(checks@).len() == 0 <==> r is Ok,
        r matches Err(v) ==> crate::text::sv(v@) == issues_of(checks@),
{
    let mut issues: Vec<String> = Vec::new();
    let mut i: usize = 0;
    while i < checks.len()
        invariant
            i <= checks.len(),
            crate::text::sv(issues@) == issues_of(checks@.take(i as int)),
        decreases checks.len() - i,
    {
        assert(checks@.take(i as int + 1).drop_last() =~= checks@.take(i as int));
        let c = &checks[i];
        match &c.outcome {
            Ok(true) => {},
            Ok(false) => {
                issues.push(verification_failed(&c.subject, c.path.as_str()));
            },
            Err(e) => {
                issues.push(e.clone());
            },
        }
        proof {
            assert(crate::text::sv(issues@) =~= issues_of(checks@.take(i as int + 1)));
        }
        i = i + 1;
    }
    assert(checks@.take(checks.len() as int) =~= checks@);
    if issues.len() == 0 {
        Ok(())
    } else {
        Err(issues)
    }
}

} // verus!

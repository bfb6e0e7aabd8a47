//! Snapshot manifests as the server stages them: where each repository
//! file and distfile of a workorder is materialized, and which stored
//! blobs and trees the workorder references.
use vstd::prelude::*;

use crate::blob_store::path_join;
use crate::runtime::{safe_file_name, safe_relative_path, sanitize_file_name, sanitize_relative_path, RuntimeError};
use crate::strmap::{sorted_keys, StrMap};
use crate::paths::normal_segments;
use crate::text::{chars_of, concat_chars, decimal, eq_chars, join, split_on, string_of, sv, u64_to_decimal};

verus! {

/// A file of a snapshot, by the digest of its stored blob.
#[derive(Debug, Clone, PartialEq, Eq)]
pub struct SnapshotEntry {
    pub digest: String,
}

/// The files of one repository snapshot, by relative path, and the digest
/// of its stored tree (empty when there is none).
pub struct RepoSnapshotManifest {
    pub entries: StrMap<SnapshotEntry>,
    pub tree_digest: String,
}

/// The repository snapshots by repository name, and the distfiles by name.
pub struct SnapshotManifest {
    pub repo_snapshots: StrMap<RepoSnapshotManifest>,
    pub distfiles: StrMap<SnapshotEntry>,
}

/// Whether one of the first `n` files of a repository snapshot is stored
/// under digest `d`.
pub open spec fn repo_has_digest(r: RepoSnapshotManifest, d: Seq<char>, n: int) -> bool {
    exists|j: int| 0 <= j < n && (#[trigger] r.entries.entries_view()[j]).1.digest@ == d
}

/// Whether a file of one of the first `n` repository snapshots is stored
/// under digest `d`.
pub open spec fn repos_have_digest(m: SnapshotManifest, d: Seq<char>, n: int) -> bool {
    exists|i: int|
        0 <= i < n && repo_has_digest(
            #[trigger] m.repo_snapshots.entries_view()[i].1,
            d,
            m.repo_snapshots.entries_view()[i].1.entries.size() as int,
        )
}

/// Whether one of the first `n` distfiles is stored under digest `d`.
pub open spec fn distfiles_have_digest(m: SnapshotManifest, d: Seq<char>, n: int) -> bool {
    exists|k: int| 0 <= k < n && (#[trigger] m.distfiles.entries_view()[k]).1.digest@ == d
}

/// Whether a workorder with this manifest references the blob `d`.
pub open spec fn references_blob(m: SnapshotManifest, d: Seq<char>) -> bool {
    repos_have_digest(m, d, m.repo_snapshots.size() as int) || distfiles_have_digest(
        m,
        d,
        m.distfiles.size() as int,
    )
}

/// Whether one of the first `n` repository snapshots has tree `d`.
pub open spec fn repos_have_tree(m: SnapshotManifest, d: Seq<char>, n: int) -> bool {
    exists|i: int| 0 <= i < n && (#[trigger] m.repo_snapshots.entries_view()[i]).1.tree_digest@ == d
}

/// Whether a workorder with this manifest references the tree `d`.
pub open spec fn references_tree(m: SnapshotManifest, d: Seq<char>) -> bool {
    d.len() > 0 && repos_have_tree(m, d, m.repo_snapshots.size() as int)
}

fn keys_of_set(m: &StrMap<bool>) -> (r: Vec<String>)
    requires
        m.wf(),
    ensures
        sv(r@) == m.key_seq(),
{
    let mut out: Vec<String> = Vec::new();
    let mut i: usize = 0;
    while i < m.len()
        invariant
            i <= m.size(),
            sv(out@) == m.key_seq().take(i as int),
        decreases m.size() - i,
    {
        let (k, _) = m.entry_at(i);
        assert(m.key_seq()[i as int] == k@);
        let c = k.clone();
        let ghost before = out@;
        out.push(c);
        assert(sv(out@) =~= sv(before).push(c@));
        assert(sv(out@) =~= m.key_seq().take(i + 1));
        i += 1;
    }
    assert(m.key_seq().take(m.size() as int) =~= m.key_seq());
    out
}

proof fn lemma_set_contents(m: StrMap<bool>, r: Seq<Seq<char>>, w: Seq<char>)
    requires
        r == m.key_seq(),
    ensures
        r.contains(w) <==> m.has_key(w),
{
    if r.contains(w) {
        let j = choose|j: int| 0 <= j < r.len() && r[j] == w;
        assert(m.key_seq()[j] == w);
    }
    if m.has_key(w) {
        let j = choose|j: int| 0 <= j < m.key_seq().len() && m.key_seq()[j] == w;
        assert(r[j] == w);
    }
}

/// The stored blobs and trees a workorder references: every file's and
/// distfile's blob, and every non-empty repository tree, each once and in
/// order.
pub fn reference_digests(m: &SnapshotManifest) -> (r: (Vec<String>, Vec<String>))
    requires
        m.repo_snapshots.wf(),
        m.distfiles.wf(),
    ensures
        sorted_keys(sv(r.0@)),
        forall|d: Seq<char>| #[trigger] sv(r.0@).contains(d) <==> references_blob(*m, d),
        sorted_keys(sv(r.1@)),
        forall|d: Seq<char>| #[trigger] sv(r.1@).contains(d) <==> references_tree(*m, d),
{
    let mut blobs: StrMap<bool> = StrMap::new();
    let mut trees: StrMap<bool> = StrMap::new();
    let mut i: usize = 0;
    while i < m.repo_snapshots.len()
        invariant
            i <= m.repo_snapshots.size(),
            blobs.wf(),
            trees.wf(),
            forall|d: Seq<char>| #[trigger] blobs.has_key(d) <==> repos_have_digest(*m, d, i as int),
            forall|d: Seq<char>| #[trigger] trees.has_key(d) <==> (d.len() > 0 && repos_have_tree(*m, d, i as int)),
        decreases m.repo_snapshots.size() - i,
    {
        let (_, repo) = m.repo_snapshots.entry_at(i);
        let ghost r = m.repo_snapshots.entries_view()[i as int].1;
        assert(*repo == r);
        let ghost before = blobs;
        let mut j: usize = 0;
        while j < repo.entries.len()
            invariant
                j <= repo.entries.size(),
                *repo == r,
                blobs.wf(),
                forall|d: Seq<char>| #[trigger] blobs.has_key(d) <==> (repos_have_digest(*m, d, i as int)
                    || repo_has_digest(r, d, j as int)),
            decreases repo.entries.size() - j,
        {
            let (_, e) = repo.entries.entry_at(j);
            let ghost ev = r.entries.entries_view()[j as int].1;
            assert(*e == ev);
            blobs.insert(e.digest.clone(), true);
            proof {
                assert forall|d: Seq<char>| #[trigger] blobs.has_key(d) <==> (repos_have_digest(*m, d, i as int)
                    || repo_has_digest(r, d, j + 1)) by {
                    if repo_has_digest(r, d, j + 1) && !repo_has_digest(r, d, j as int) {
                        let k = choose|k: int| 0 <= k < j + 1 && (#[trigger] r.entries.entries_view()[k]).1.digest@ == d;
                        assert(k == j);
                    }
                    if d == e.digest@ {
                        assert(r.entries.entries_view()[j as int].1.digest@ == d);
                    }
                    if repo_has_digest(r, d, j as int) {
                        let k = choose|k: int| 0 <= k < j && (#[trigger] r.entries.entries_view()[k]).1.digest@ == d;
                        assert(r.entries.entries_view()[k].1.digest@ == d);
                    }
                }
            }
            j += 1;
        }
        let tree_chars = chars_of(repo.tree_digest.as_str());
        if tree_chars.len() > 0 {
            trees.insert(repo.tree_digest.clone(), true);
        }
        proof {
            assert forall|d: Seq<char>| #[trigger] blobs.has_key(d) <==> repos_have_digest(*m, d, i + 1) by {
                if repos_have_digest(*m, d, i + 1) && !repos_have_digest(*m, d, i as int) {
                    let k = choose|k: int| 0 <= k < i + 1 && repo_has_digest(#[trigger] m.repo_snapshots.entries_view()[k].1, d, m.repo_snapshots.entries_view()[k].1.entries.size() as int);
                    assert(k == i);
                }
                if repo_has_digest(r, d, r.entries.size() as int) {
                    assert(repo_has_digest(m.repo_snapshots.entries_view()[i as int].1, d, m.repo_snapshots.entries_view()[i as int].1.entries.size() as int));
                }
                if repos_have_digest(*m, d, i as int) {
                    let k = choose|k: int| 0 <= k < i && repo_has_digest(#[trigger] m.repo_snapshots.entries_view()[k].1, d, m.repo_snapshots.entries_view()[k].1.entries.size() as int);
                    assert(repo_has_digest(m.repo_snapshots.entries_view()[k].1, d, m.repo_snapshots.entries_view()[k].1.entries.size() as int));
                }
            }
            assert forall|d: Seq<char>| #[trigger] trees.has_key(d) <==> (d.len() > 0 && repos_have_tree(*m, d, i + 1)) by {
                if repos_have_tree(*m, d, i + 1) && !repos_have_tree(*m, d, i as int) {
                    let k = choose|k: int| 0 <= k < i + 1 && (#[trigger] m.repo_snapshots.entries_view()[k]).1.tree_digest@ == d;
                    assert(k == i);
                }
                if d == r.tree_digest@ {
                    assert(m.repo_snapshots.entries_view()[i as int].1.tree_digest@ == d);
                }
                if repos_have_tree(*m, d, i as int) {
                    let k = choose|k: int| 0 <= k < i && (#[trigger] m.repo_snapshots.entries_view()[k]).1.tree_digest@ == d;
                    assert(m.repo_snapshots.entries_view()[k].1.tree_digest@ == d);
                }
            }
        }
        i += 1;
    }
    let mut k: usize = 0;
    while k < m.distfiles.len()
        invariant
            k <= m.distfiles.size(),
            blobs.wf(),
            forall|d: Seq<char>| #[trigger] blobs.has_key(d) <==> (repos_have_digest(*m, d, m.repo_snapshots.size() as int)
                || distfiles_have_digest(*m, d, k as int)),
        decreases m.distfiles.size() - k,
    {
        let (_, e) = m.distfiles.entry_at(k);
        blobs.insert(e.digest.clone(), true);
        proof {
            assert forall|d: Seq<char>| #[trigger] blobs.has_key(d) <==> (repos_have_digest(*m, d, m.repo_snapshots.size() as int)
                || distfiles_have_digest(*m, d, k + 1)) by {
                if distfiles_have_digest(*m, d, k + 1) && !distfiles_have_digest(*m, d, k as int) {
                    let q = choose|q: int| 0 <= q < k + 1 && (#[trigger] m.distfiles.entries_view()[q]).1.digest@ == d;
                    assert(q == k);
                }
                if d == e.digest@ {
                    assert(m.distfiles.entries_view()[k as int].1.digest@ == d);
                }
                if distfiles_have_digest(*m, d, k as int) {
                    let q = choose|q: int| 0 <= q < k && (#[trigger] m.distfiles.entries_view()[q]).1.digest@ == d;
                    assert(m.distfiles.entries_view()[q].1.digest@ == d);
                }
            }
        }
        k += 1;
    }
    let b = keys_of_set(&blobs);
    let t = keys_of_set(&trees);
    proof {
        assert forall|d: Seq<char>| #[trigger] sv(b@).contains(d) <==> references_blob(*m, d) by {
            lemma_set_contents(blobs, sv(b@), d);
        }
        assert forall|d: Seq<char>| #[trigger] sv(t@).contains(d) <==> references_tree(*m, d) by {
            lemma_set_contents(trees, sv(t@), d);
        }
    }
    (b, t)
}

/// The directory a repository snapshot is materialized in:
/// `snapshots/repos/<name>` under the runtime directory, the name a plain
/// file name.
pub fn repo_snapshot_dir(runtime_dir: &str, repo_name: &str) -> (r: Result<String, RuntimeError>)
    ensures
        safe_file_name(repo_name@) ==> (r matches Ok(p) && p@ == path_join(
            path_join(runtime_dir@, "snapshots/repos"@),
            repo_name@,
        )),
        !safe_file_name(repo_name@) ==> (r matches Err(RuntimeError::InvalidFileName { name: n })
            && n@ == repo_name@),
{
    match sanitize_file_name(repo_name) {
        Ok(name) => {
            let base = crate::blob_store::join_path(runtime_dir, "snapshots/repos");
            Ok(crate::blob_store::join_path(base.as_str(), name.as_str()))
        },
        Err(e) => Err(e),
    }
}

/// Where a file of a repository snapshot is materialized: its relative
/// path, normalized, under the repository's directory.
pub fn repo_file_target(repo_dir: &str, relative_path: &str) -> (r: Result<String, RuntimeError>)
    ensures
        safe_relative_path(relative_path@) ==> (r matches Ok(p) && p@ == path_join(
            repo_dir@,
            join(normal_segments(split_on(relative_path@, '/')), "/"@),
        )),
        !safe_relative_path(relative_path@) ==> (r matches Err(
            RuntimeError::InvalidRelativePath { path: p },
        ) && p@ == relative_path@),
{
    match sanitize_relative_path(relative_path) {
        Ok(safe) => Ok(crate::blob_store::join_path(repo_dir, safe.as_str())),
        Err(e) => Err(e),
    }
}

/// Where a distfile is materialized: `snapshots/distfiles/<name>` under
/// the runtime directory, the name a plain file name.
pub fn distfile_target(runtime_dir: &str, name: &str) -> (r: Result<String, RuntimeError>)
    ensures
        safe_file_name(name@) ==> (r matches Ok(p) && p@ == path_join(
            path_join(runtime_dir@, "snapshots/distfiles"@),
            name@,
        )),
        !safe_file_name(name@) ==> (r matches Err(RuntimeError::InvalidFileName { name: n }) && n@
            == name@),
{
    match sanitize_file_name(name) {
        Ok(n) => {
            let base = crate::blob_store::join_path(runtime_dir, "snapshots/distfiles");
            Ok(crate::blob_store::join_path(base.as_str(), n.as_str()))
        },
        Err(e) => Err(e),
    }
}

/// The only snapshot manifest version the server reads.
pub const SNAPSHOT_MANIFEST_VERSION_V1: u32 = 1;

/// Why a submitted snapshot is refused while the server builds the
/// effective manifest.
#[derive(Debug, Clone, PartialEq, Eq)]
pub enum SnapshotError {
    /// The manifest has another version.
    UnsupportedManifestVersion { version: u32 },
    /// An inline repository file does not hash to its listed reference.
    RefsMismatch { repo: String },
    /// The stored tree of a repository has another digest than expected.
    TreeMismatch { repo: String },
    /// An inline distfile does not hash to its listed reference.
    DistfileMismatch { name: String },
}

/// The text of a snapshot error, as the server reports it.
pub open spec fn snapshot_error_text(e: SnapshotError) -> Seq<char> {
    match e {
        SnapshotError::UnsupportedManifestVersion { version } => "unsupported snapshot manifest version "@
            + decimal(version as nat),
        SnapshotError::RefsMismatch { repo } => "repo snapshot refs for '"@ + repo@
            + "' do not match inline payloads"@,
        SnapshotError::TreeMismatch { repo } => "repo snapshot tree digest mismatch for '"@ + repo@
            + "'"@,
        SnapshotError::DistfileMismatch { name } => "distfile snapshot digest mismatch for '"@
            + name@ + "'"@,
    }
}

fn text3(a: &str, b: &str, c: &str) -> (r: String)
    ensures
        r@ == a@ + b@ + c@,
{
    let ab = concat_chars(chars_of(a).as_slice(), chars_of(b).as_slice());
    let abc = concat_chars(ab.as_slice(), chars_of(c).as_slice());
    string_of(abc.as_slice())
}

impl SnapshotError {
    /// The error's text.
    pub fn message(&self) -> (r: String)
        ensures
            r@ == snapshot_error_text(*self),
    {
        match self {
            SnapshotError::UnsupportedManifestVersion { version } => {
                let d = u64_to_decimal(*version as u64);
                let t = concat_chars(chars_of("unsupported snapshot manifest version ").as_slice(), d.as_slice());
                string_of(t.as_slice())
            },
            SnapshotError::RefsMismatch { repo } => text3(
                "repo snapshot refs for '",
                repo.as_str(),
                "' do not match inline payloads",
            ),
            SnapshotError::TreeMismatch { repo } => text3(
                "repo snapshot tree digest mismatch for '",
                repo.as_str(),
                "'",
            ),
            SnapshotError::DistfileMismatch { name } => text3(
                "distfile snapshot digest mismatch for '",
                name.as_str(),
                "'",
            ),
        }
    }
}

/// Accepts only a version-1 manifest.
pub fn check_manifest_version(version: u32) -> (r: Result<(), SnapshotError>)
    ensures
        version == SNAPSHOT_MANIFEST_VERSION_V1 <==> r is Ok,
        version != SNAPSHOT_MANIFEST_VERSION_V1 ==> r == Err::<(), SnapshotError>(
            SnapshotError::UnsupportedManifestVersion { version },
        ),
{
    if version != SNAPSHOT_MANIFEST_VERSION_V1 {
        return Err(SnapshotError::UnsupportedManifestVersion { version });
    }
    Ok(())
}

fn same_text(a: &str, b: &str) -> (r: bool)
    ensures
        r == (a@ == b@),
{
    eq_chars(chars_of(a).as_slice(), chars_of(b).as_slice())
}

/// Checks the digest of an inline repository file, `computed`, against the
/// reference listed for it, if one is.
pub fn check_inline_ref(repo_name: &str, computed: &str, expected: Option<&str>) -> (r: Result<
    (),
    SnapshotError,
>)
    ensures
        (expected matches Some(e) && e@ != computed@) <==> r is Err,
        r matches Err(SnapshotError::RefsMismatch { repo }) ==> repo@ == repo_name@,
        r matches Err(x) ==> x is RefsMismatch,
{
    match expected {
        Some(e) => {
            if !same_text(e, computed) {
                return Err(SnapshotError::RefsMismatch { repo: string_of(chars_of(repo_name).as_slice()) });
            }
            Ok(())
        },
        None => Ok(()),
    }
}

/// The tree digest an inline repository snapshot must reproduce: the one of
/// the submitted manifest when it is not empty, else the configured one when
/// that is not empty.
pub open spec fn expected_inline_tree(existing: Option<Seq<char>>, configured: Option<Seq<char>>) -> Option<
    Seq<char>,
> {
    match existing {
        Some(e) if e.len() > 0 => Some(e),
        _ => match configured {
            Some(c) if c.len() > 0 => Some(c),
            _ => None,
        },
    }
}

pub open spec fn opt_str_view(o: Option<&str>) -> Option<Seq<char>> {
    match o {
        Some(s) => Some(s@),
        None => None,
    }
}

/// Picks the tree digest an inline repository snapshot must reproduce.
pub fn inline_tree_expectation<'a>(existing: Option<&'a str>, configured: Option<&'a str>) -> (r:
    Option<&'a str>)
    ensures
        opt_str_view(r) == expected_inline_tree(opt_str_view(existing), opt_str_view(configured)),
{
    match existing {
        Some(e) => {
            if chars_of(e).len() > 0 {
                return Some(e);
            }
        },
        None => {},
    }
    match configured {
        Some(c) => {
            if chars_of(c).len() > 0 {
                Some(c)
            } else {
                None
            }
        },
        None => None,
    }
}

/// Checks the digest of a stored tree against the expected one, if any.
pub fn check_tree_digest(repo_name: &str, computed: &str, expected: Option<&str>) -> (r: Result<
    (),
    SnapshotError,
>)
    ensures
        (expected matches Some(e) && e@ != computed@) <==> r is Err,
        r matches Err(SnapshotError::TreeMismatch { repo }) ==> repo@ == repo_name@,
        r matches Err(x) ==> x is TreeMismatch,
{
    match expected {
        Some(e) => {
            if !same_text(e, computed) {
                return Err(SnapshotError::TreeMismatch { repo: string_of(chars_of(repo_name).as_slice()) });
            }
            Ok(())
        },
        None => Ok(()),
    }
}

/// Checks the digest of an inline distfile against its listed reference,
/// if one is.
pub fn check_distfile_ref(name: &str, computed: &str, expected: Option<&str>) -> (r: Result<
    (),
    SnapshotError,
>)
    ensures
        (expected matches Some(e) && e@ != computed@) <==> r is Err,
        r matches Err(SnapshotError::DistfileMismatch { name: n }) ==> n@ == name@,
        r matches Err(x) ==> x is DistfileMismatch,
{
    match expected {
        Some(e) => {
            if !same_text(e, computed) {
                return Err(SnapshotError::DistfileMismatch { name: string_of(chars_of(name).as_slice()) });
            }
            Ok(())
        },
        None => Ok(()),
    }
}

} // verus!

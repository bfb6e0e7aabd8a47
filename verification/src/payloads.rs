//! The blobs a client uploads before it submits a snapshot manifest: the
//! bytes of every inline repository file and distfile, keyed by the digest
//! the manifest (or, failing that, the reference list) gives it, each digest
//! once.
use vstd::prelude::*;

use crate::snapshot::SnapshotManifest;
use crate::strmap::{key_pos, lemma_lookup_some, StrMap};

verus! {

/// The snapshot parts of a client's portage configuration that name blob
/// payloads.
pub struct SnapshotPayloadSources {
    /// The submitted manifest, whose entries give digests.
    pub manifest: SnapshotManifest,
    /// Inline repository files: repository, then relative path, to content.
    pub repo_snapshots: StrMap<StrMap<String>>,
    /// Digests of repository files: repository, then relative path.
    pub repo_snapshot_refs: StrMap<StrMap<String>>,
    /// Inline distfiles by name.
    pub distfile_snapshots: StrMap<Vec<u8>>,
    /// Digests of distfiles by name.
    pub distfile_snapshot_refs: StrMap<String>,
}

/// Every map of a map of maps is well formed.
pub open spec fn nested_wf<V>(m: StrMap<StrMap<V>>) -> bool {
    &&& m.wf()
    &&& forall|i: int| 0 <= i < m.size() ==> (#[trigger] m.entries_view()[i]).1.wf()
}

impl SnapshotPayloadSources {
    pub open spec fn wf(&self) -> bool {
        &&& self.manifest.repo_snapshots.wf()
        &&& forall|i: int|
            0 <= i < self.manifest.repo_snapshots.size()
                ==> (#[trigger] self.manifest.repo_snapshots.entries_view()[i]).1.entries.wf()
        &&& self.manifest.distfiles.wf()
        &&& nested_wf(self.repo_snapshots)
        &&& nested_wf(self.repo_snapshot_refs)
        &&& self.distfile_snapshots.wf()
        &&& self.distfile_snapshot_refs.wf()
    }
}

/// Where a payload comes from.
#[derive(Debug, Clone, PartialEq, Eq)]
pub enum PayloadSource {
    Repo { repo: String, path: String },
    Distfile { name: String },
}

/// Why the payloads cannot be collected.
#[derive(Debug, Clone, PartialEq, Eq)]
pub enum PayloadError {
    /// No digest is known for a repository file.
    MissingRepoDigest { repo: String, path: String },
    /// No digest is known for a distfile.
    MissingDistfileDigest { name: String },
    /// Two different payloads claim the same digest.
    DigestCollision { digest: String },
}

/// The digest of a repository file: its manifest entry's, else its
/// reference.
pub open spec fn repo_file_digest(s: SnapshotPayloadSources, repo: Seq<char>, path: Seq<char>) -> Option<
    String,
> {
    let from_manifest = match s.manifest.repo_snapshots.lookup(repo) {
        Some(rm) => match rm.entries.lookup(path) {
            Some(e) => Some(e.digest),
            None => None,
        },
        None => None,
    };
    match from_manifest {
        Some(d) => Some(d),
        None => match s.repo_snapshot_refs.lookup(repo) {
            Some(refs) => refs.lookup(path),
            None => None,
        },
    }
}

/// The digest of a distfile: its manifest entry's, else its reference.
pub open spec fn distfile_digest(s: SnapshotPayloadSources, name: Seq<char>) -> Option<String> {
    match s.manifest.distfiles.lookup(name) {
        Some(e) => Some(e.digest),
        None => s.distfile_snapshot_refs.lookup(name),
    }
}

/// One payload in the order the client collects them: where it comes from,
/// its digest if one is known, and its bytes.
pub type PayloadItem = (PayloadSource, Option<String>, Seq<u8>);

/// The `j`-th file of the `i`-th repository as a payload.
pub open spec fn repo_item(s: SnapshotPayloadSources, i: int, j: int) -> PayloadItem {
    let (repo, files) = s.repo_snapshots.entries_view()[i];
    let (path, content) = files.entries_view()[j];
    (
        PayloadSource::Repo { repo, path },
        repo_file_digest(s, repo@, path@),
        vstd::utf8::encode_utf8(content@),
    )
}

/// The first `j` files of the `i`-th repository.
pub open spec fn file_items(s: SnapshotPayloadSources, i: int, j: int) -> Seq<PayloadItem>
    decreases j,
{
    if j <= 0 {
        Seq::empty()
    } else {
        file_items(s, i, j - 1).push(repo_item(s, i, j - 1))
    }
}

/// The files of the first `i` repositories, repository by repository.
pub open spec fn repo_items(s: SnapshotPayloadSources, i: int) -> Seq<PayloadItem>
    decreases i,
{
    if i <= 0 {
        Seq::empty()
    } else {
        repo_items(s, i - 1) + file_items(
            s,
            i - 1,
            s.repo_snapshots.entries_view()[i - 1].1.size() as int,
        )
    }
}

/// The `k`-th distfile as a payload.
pub open spec fn distfile_item(s: SnapshotPayloadSources, k: int) -> PayloadItem {
    let (name, bytes) = s.distfile_snapshots.entries_view()[k];
    (PayloadSource::Distfile { name }, distfile_digest(s, name@), bytes@)
}

/// The first `k` distfiles.
pub open spec fn distfile_items(s: SnapshotPayloadSources, k: int) -> Seq<PayloadItem>
    decreases k,
{
    if k <= 0 {
        Seq::empty()
    } else {
        distfile_items(s, k - 1).push(distfile_item(s, k - 1))
    }
}

/// Every payload: the repository files, then the distfiles.
pub open spec fn all_items(s: SnapshotPayloadSources) -> Seq<PayloadItem> {
    repo_items(s, s.repo_snapshots.size() as int) + distfile_items(
        s,
        s.distfile_snapshots.size() as int,
    )
}

/// The error for a payload without a digest.
pub open spec fn missing_digest(source: PayloadSource) -> PayloadError {
    match source {
        PayloadSource::Repo { repo, path } => PayloadError::MissingRepoDigest { repo, path },
        PayloadSource::Distfile { name } => PayloadError::MissingDistfileDigest { name },
    }
}

/// Adds one payload: a payload without a digest fails, a digest already
/// taken by other bytes fails, the same bytes again change nothing.
pub open spec fn add_item(
    acc: Result<Map<Seq<char>, Seq<u8>>, PayloadError>,
    item: PayloadItem,
) -> Result<Map<Seq<char>, Seq<u8>>, PayloadError> {
    match acc {
        Err(e) => Err(e),
        Ok(m) => match item.1 {
            None => Err(missing_digest(item.0)),
            Some(d) => if m.contains_key(d@) {
                if m[d@] == item.2 {
                    Ok(m)
                } else {
                    Err(PayloadError::DigestCollision { digest: d })
                }
            } else {
                Ok(m.insert(d@, item.2))
            },
        },
    }
}

/// The payloads of a list of items added in order: the first failure, or
/// the bytes by digest.
pub open spec fn collect(items: Seq<PayloadItem>) -> Result<Map<Seq<char>, Seq<u8>>, PayloadError>
    decreases items.len(),
{
    if items.len() == 0 {
        Ok(Map::empty())
    } else {
        add_item(collect(items.drop_last()), items.last())
    }
}

/// A map of byte vectors holds exactly the bytes of `m`.
pub open spec fn holds_bytes(p: StrMap<Vec<u8>>, m: Map<Seq<char>, Seq<u8>>) -> bool {
    &&& p.wf()
    &&& forall|k: Seq<char>| #[trigger] p.has_key(k) <==> m.contains_key(k)
    &&& forall|k: Seq<char>| #[trigger] p.lookup(k) matches Some(v) ==> v@ == m[k]
}

/// The collection state: nothing failed and the payloads agree with `c`, or
/// the failure agrees with it.
pub open spec fn state_agrees(
    payloads: StrMap<Vec<u8>>,
    failure: Option<PayloadError>,
    c: Result<Map<Seq<char>, Seq<u8>>, PayloadError>,
) -> bool {
    match failure {
        None => c matches Ok(m) && holds_bytes(payloads, m),
        Some(e) => c == Err::<Map<Seq<char>, Seq<u8>>, PayloadError>(e),
    }
}

fn eq_bytes(a: &[u8], b: &[u8]) -> (r: bool)
    ensures
        r == (a@ == b@),
{
    if a.len() != b.len() {
        return false;
    }
    let mut i: usize = 0;
    while i < a.len()
        invariant
            a.len() == b.len(),
            i <= a.len(),
            forall|j: int| 0 <= j < i ==> a@[j] == b@[j],
        decreases a.len() - i,
    {
        if a[i] != b[i] {
            return false;
        }
        i = i + 1;
    }
    assert(a@ =~= b@);
    true
}

fn copy_error(e: &PayloadError) -> (r: PayloadError)
    ensures
        r == *e,
{
    match e {
        PayloadError::MissingRepoDigest { repo, path } => PayloadError::MissingRepoDigest {
            repo: repo.clone(),
            path: path.clone(),
        },
        PayloadError::MissingDistfileDigest { name } => PayloadError::MissingDistfileDigest {
            name: name.clone(),
        },
        PayloadError::DigestCollision { digest } => PayloadError::DigestCollision {
            digest: digest.clone(),
        },
    }
}

/// Adds one payload to the collection state, as `add_item` says.
fn add_payload(
    payloads: &mut StrMap<Vec<u8>>,
    failure: &mut Option<PayloadError>,
    source: PayloadSource,
    digest: Option<&String>,
    bytes: &[u8],
    Ghost(c): Ghost<Result<Map<Seq<char>, Seq<u8>>, PayloadError>>,
)
    requires
        state_agrees(*old(payloads), *old(failure), c),
    ensures
        state_agrees(
            *final(payloads),
            *final(failure),
            add_item(
                c,
                (
                    source,
                    match digest {
                        Some(d) => Some(*d),
                        None => None,
                    },
                    bytes@,
                ),
            ),
        ),
{
    if failure.is_some() {
        return;
    }
    let ghost m = c->Ok_0;
    match digest {
        None => {
            *failure = Some(
                match source {
                    PayloadSource::Repo { repo, path } => PayloadError::MissingRepoDigest {
                        repo,
                        path,
                    },
                    PayloadSource::Distfile { name } => PayloadError::MissingDistfileDigest {
                        name,
                    },
                },
            );
        },
        Some(d) => {
            match payloads.get(d.as_str()) {
                Some(existing) => {
                    proof {
                        crate::strmap::lemma_has_key_lookup(*payloads, d@);
                    }
                    if !eq_bytes(existing.as_slice(), bytes) {
                        *failure = Some(PayloadError::DigestCollision { digest: d.clone() });
                    }
                },
                None => {
                    proof {
                        crate::strmap::lemma_has_key_lookup(*payloads, d@);
                    }
                    let ghost before = *payloads;
                    payloads.insert(d.clone(), vstd::slice::slice_to_vec(bytes));
                    proof {
                        let m2 = m.insert(d@, bytes@);
                        assert forall|k: Seq<char>| #[trigger] payloads.has_key(k) <==> m2.contains_key(k) by {
                            crate::strmap::lemma_has_key_lookup(*payloads, k);
                            crate::strmap::lemma_has_key_lookup(before, k);
                        }
                        assert forall|k: Seq<char>| (#[trigger] payloads.lookup(k) matches Some(v) ==> v@ == m2[k]) by {
                            if k != d@ {
                                assert(before.lookup(k) == payloads.lookup(k));
                            }
                        }
                    }
                },
            }
        },
    }
}

proof fn lemma_lookup_wf<V>(m: StrMap<StrMap<V>>, k: Seq<char>)
    requires
        nested_wf(m),
        m.lookup(k) is Some,
    ensures
        (m.lookup(k)->Some_0).wf(),
{
    lemma_lookup_some(m, k);
    let i = key_pos(m.key_seq(), k);
    assert(m.entries_view()[i].1.wf());
}

/// The digest a repository file is uploaded under.
fn repo_digest<'a>(s: &'a SnapshotPayloadSources, repo: &str, path: &str) -> (r: Option<&'a String>)
    requires
        s.wf(),
    ensures
        match r {
            Some(d) => repo_file_digest(*s, repo@, path@) == Some(*d),
            None => repo_file_digest(*s, repo@, path@) is None,
        },
{
    match s.manifest.repo_snapshots.get(repo) {
        Some(rm) => {
            proof {
                lemma_lookup_some(s.manifest.repo_snapshots, repo@);
                let i = key_pos(s.manifest.repo_snapshots.key_seq(), repo@);
                assert(s.manifest.repo_snapshots.entries_view()[i].1.entries.wf());
            }
            match rm.entries.get(path) {
                Some(e) => {
                    return Some(&e.digest);
                },
                None => {},
            }
        },
        None => {},
    }
    match s.repo_snapshot_refs.get(repo) {
        Some(refs) => {
            proof {
                lemma_lookup_wf(s.repo_snapshot_refs, repo@);
            }
            refs.get(path)
        },
        None => None,
    }
}

/// The digest a distfile is uploaded under.
fn distfile_digest_of<'a>(s: &'a SnapshotPayloadSources, name: &str) -> (r: Option<&'a String>)
    requires
        s.wf(),
    ensures
        match r {
            Some(d) => distfile_digest(*s, name@) == Some(*d),
            None => distfile_digest(*s, name@) is None,
        },
{
    match s.manifest.distfiles.get(name) {
        Some(e) => Some(&e.digest),
        None => s.distfile_snapshot_refs.get(name),
    }
}

/// Collects the blob payloads of a snapshot: every inline repository file
/// (repository by repository, path by path) and then every inline distfile,
/// each under the digest its manifest entry or else its reference gives,
/// each digest once. It fails on the first payload without a digest, or on
/// the first digest that two different payloads claim.
pub fn snapshot_blob_payloads(s: &SnapshotPayloadSources) -> (r: Result<
    StrMap<Vec<u8>>,
    PayloadError,
>)
    requires
        s.wf(),
    ensures
        match (r, collect(all_items(*s))) {
            (Ok(p), Ok(m)) => holds_bytes(p, m),
            (Err(e), Err(f)) => e == f,
            _ => false,
        },
{
    let mut payloads: StrMap<Vec<u8>> = StrMap::new();
    let mut failure: Option<PayloadError> = None;
    proof {
        assert forall|k: Seq<char>| #[trigger] payloads.has_key(k) <==> Map::<
            Seq<char>,
            Seq<u8>,
        >::empty().contains_key(k) by {}
        assert(repo_items(*s, 0) =~= Seq::<PayloadItem>::empty());
    }
    let mut i: usize = 0;
    while i < s.repo_snapshots.len()
        invariant
            s.wf(),
            i <= s.repo_snapshots.size(),
            state_agrees(payloads, failure, collect(repo_items(*s, i as int))),
        decreases s.repo_snapshots.size() - i,
    {
        let (repo, files) = s.repo_snapshots.entry_at(i);
        assert(s.repo_snapshots.entries_view()[i as int].1.wf());
        let ghost prefix = repo_items(*s, i as int);
        let mut j: usize = 0;
        assert(prefix + file_items(*s, i as int, 0) =~= prefix);
        while j < files.len()
            invariant
                s.wf(),
                i < s.repo_snapshots.size(),
                *repo == s.repo_snapshots.entries_view()[i as int].0,
                *files == s.repo_snapshots.entries_view()[i as int].1,
                files.wf(),
                j <= files.size(),
                prefix == repo_items(*s, i as int),
                state_agrees(payloads, failure, collect(prefix + file_items(*s, i as int, j as int))),
            decreases files.size() - j,
        {
            let (path, content) = files.entry_at(j);
            let digest = repo_digest(s, repo.as_str(), path.as_str());
            let ghost before = prefix + file_items(*s, i as int, j as int);
            add_payload(
                &mut payloads,
                &mut failure,
                PayloadSource::Repo { repo: repo.clone(), path: path.clone() },
                digest,
                content.as_str().as_bytes(),
                Ghost(collect(before)),
            );
            proof {
                let after = prefix + file_items(*s, i as int, j as int + 1);
                assert(after =~= before.push(repo_item(*s, i as int, j as int)));
                assert(after.drop_last() =~= before);
            }
            j = j + 1;
        }
        i = i + 1;
    }
    let ghost repos_done = repo_items(*s, s.repo_snapshots.size() as int);
    assert(repos_done + distfile_items(*s, 0) =~= repos_done);
    let mut k: usize = 0;
    while k < s.distfile_snapshots.len()
        invariant
            s.wf(),
            k <= s.distfile_snapshots.size(),
            repos_done == repo_items(*s, s.repo_snapshots.size() as int),
            state_agrees(payloads, failure, collect(repos_done + distfile_items(*s, k as int))),
        decreases s.distfile_snapshots.size() - k,
    {
        let (name, bytes) = s.distfile_snapshots.entry_at(k);
        let digest = distfile_digest_of(s, name.as_str());
        let ghost before = repos_done + distfile_items(*s, k as int);
        add_payload(
            &mut payloads,
            &mut failure,
            PayloadSource::Distfile { name: name.clone() },
            digest,
            bytes.as_slice(),
            Ghost(collect(before)),
        );
        proof {
            let after = repos_done + distfile_items(*s, k as int + 1);
            assert(after =~= before.push(distfile_item(*s, k as int)));
            assert(after.drop_last() =~= before);
        }
        k = k + 1;
    }
    match failure {
        Some(e) => Err(e),
        None => Ok(payloads),
    }
}

} // verus!

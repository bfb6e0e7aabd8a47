//! The per-workorder runtime directory, the checks on names that workers
//! hand back, and the snapshot cache cleanup: which stored blobs and trees
//! to delete, in which order, so that the cache shrinks towards its
//! retained-size floor.
use vstd::prelude::*;

use crate::blob_store::path_join;
use crate::paths::{components, has_special_component, is_absolute, join_segments, normal_segments};
use crate::text::{
    chars_of, contains_chars, contains_seq, join, list_contains, split_on, string_of, sv,
};

verus! {

/// Subdirectory of the state directory that holds workorder runtimes.
pub const RUNTIME_SUBDIR: &'static str = "runtime";

/// The runtime directory of a workorder: `runtime/<id>` under the state
/// directory, the id in its hyphenated form.
pub fn runtime_dir(state_dir: &str, id: u128) -> (r: String)
    ensures
        r@ == path_join(path_join(state_dir@, "runtime"@), crate::ids::uuid_text(id)),
{
    let base = crate::blob_store::join_path(state_dir, RUNTIME_SUBDIR);
    let name = crate::ids::uuid_hyphenated(id);
    crate::blob_store::join_path(base.as_str(), name.as_str())
}

/// Where a workorder's final-state parity output lives.
pub fn parity_runtime_dir(runtime_dir: &str) -> (r: String)
    ensures
        r@ == path_join(runtime_dir@, "parity"@),
{
    crate::blob_store::join_path(runtime_dir, "parity")
}

/// The manifest of the distfiles a workorder fetched.
pub fn distfile_output_manifest_path(runtime_dir: &str) -> (r: String)
    ensures
        r@ == path_join(path_join(runtime_dir@, "parity"@), "distfiles.json"@),
{
    let p = parity_runtime_dir(runtime_dir);
    crate::blob_store::join_path(p.as_str(), "distfiles.json")
}

/// The blobs of the distfiles a workorder fetched.
pub fn distfile_output_blobs_dir(runtime_dir: &str) -> (r: String)
    ensures
        r@ == path_join(path_join(runtime_dir@, "parity"@), "blobs"@),
{
    let p = parity_runtime_dir(runtime_dir);
    crate::blob_store::join_path(p.as_str(), "blobs")
}

/// Why a name handed back by a worker was refused.
#[derive(Debug, Clone, PartialEq, Eq)]
pub enum RuntimeError {
    /// Empty, or holds `/` or `..`.
    InvalidFileName { name: String },
    /// Empty, absolute, or with a component other than a normal one.
    InvalidRelativePath { path: String },
}

/// A file name that stays in its directory: not empty, without `/` and
/// without `..`.
pub open spec fn safe_file_name(name: Seq<char>) -> bool {
    name.len() > 0 && !name.contains('/') && !contains_seq(name, ".."@)
}

/// Accepts a plain file name.
pub fn sanitize_file_name(name: &str) -> (r: Result<String, RuntimeError>)
    ensures
        safe_file_name(name@) ==> (r matches Ok(s) && s@ == name@),
        !safe_file_name(name@) ==> (r matches Err(RuntimeError::InvalidFileName { name: n }) && n@
            == name@),
{
    let cs = chars_of(name);
    let mut slash = false;
    let mut i: usize = 0;
    while i < cs.len()
        invariant
            i <= cs.len(),
            cs@ == name@,
            slash == exists|j: int| 0 <= j < i && cs@[j] == '/',
        decreases cs.len() - i,
    {
        if cs[i] == '/' {
            slash = true;
        }
        i += 1;
    }
    if cs.len() == 0 || slash || contains_chars(cs.as_slice(), chars_of("..").as_slice()) {
        return Err(RuntimeError::InvalidFileName { name: string_of(cs.as_slice()) });
    }
    Ok(string_of(cs.as_slice()))
}

/// A relative path whose components are all normal ones.
pub open spec fn safe_relative_path(p: Seq<char>) -> bool {
    p.len() > 0 && !is_absolute(p) && !has_special_component(p)
}

/// Accepts a relative path made of normal components, and gives it with
/// empty and inner `.` segments dropped.
pub fn sanitize_relative_path(path: &str) -> (r: Result<String, RuntimeError>)
    ensures
        safe_relative_path(path@) ==> (r matches Ok(s) && s@ == join(
            normal_segments(split_on(path@, '/')),
            "/"@,
        )),
        !safe_relative_path(path@) ==> (r matches Err(RuntimeError::InvalidRelativePath { path: p })
            && p@ == path@),
{
    let cs = chars_of(path);
    if cs.len() == 0 || cs[0] == '/' {
        return Err(RuntimeError::InvalidRelativePath { path: string_of(cs.as_slice()) });
    }
    let c = components(cs.as_slice());
    if c.special {
        return Err(RuntimeError::InvalidRelativePath { path: string_of(cs.as_slice()) });
    }
    let joined = join_segments(&c.normal);
    Ok(string_of(joined.as_slice()))
}

/// The two kinds of stored snapshot content.
#[derive(Debug, Clone, Copy, PartialEq, Eq, Structural)]
pub enum EntryKind {
    Blob,
    Tree,
}

/// A stored blob or tree, as its metadata describes it.
#[derive(Debug, Clone, PartialEq, Eq)]
pub struct CacheRecord {
    pub digest: String,
    /// Last time a workorder referenced it, in milliseconds since the Unix
    /// epoch.
    pub last_referenced_millis: i64,
    pub raw_size_bytes: u64,
    /// Sizes of its encoded variants.
    pub encoded_variant_bytes: Vec<u64>,
}

/// A stored entry chosen for deletion.
#[derive(Debug, Clone, PartialEq, Eq)]
pub struct CleanupEntry {
    pub kind: EntryKind,
    pub digest: String,
    pub last_referenced_millis: i64,
    pub retained_bytes: u64,
}

/// The cleanup settings of the server.
#[derive(Debug, Clone, Copy, PartialEq, Eq)]
pub struct CleanupPolicy {
    /// Unreferenced entries older than this may go while the cache is above
    /// its floor, oldest first.
    pub grace_period_hours: u64,
    /// Unreferenced entries older than this go first.
    pub hard_delete_hours: u64,
    /// Cleanup stops once the cache holds no more than this.
    pub min_retained_bytes: u64,
}

/// What a cleanup pass deleted.
#[derive(Debug, Clone, Copy, PartialEq, Eq, Structural)]
pub struct SnapshotCleanupSummary {
    pub deleted_blobs: usize,
    pub deleted_trees: usize,
    pub reclaimed_bytes: u64,
}

/// The deletions of a cleanup pass, in order, and what they add up to.
#[derive(Debug, Clone, PartialEq, Eq)]
pub struct CleanupPlan {
    pub deletions: Vec<CleanupEntry>,
    pub summary: SnapshotCleanupSummary,
}

/// A cleanup entry as plain values.
pub struct EntryModel {
    pub kind: EntryKind,
    pub digest: Seq<char>,
    pub last: i64,
    pub retained: int,
}

pub open spec fn entry_view(e: CleanupEntry) -> EntryModel {
    EntryModel {
        kind: e.kind,
        digest: e.digest@,
        last: e.last_referenced_millis,
        retained: e.retained_bytes as int,
    }
}

pub open spec fn entries_view(s: Seq<CleanupEntry>) -> Seq<EntryModel> {
    s.map_values(|e: CleanupEntry| entry_view(e))
}

pub open spec fn sum_sizes(s: Seq<u64>) -> int
    decreases s.len(),
{
    if s.len() == 0 {
        0
    } else {
        sum_sizes(s.drop_last()) + s.last()
    }
}

/// The bytes an entry keeps on disk: its raw bytes and every encoded
/// variant.
pub open spec fn retained(r: CacheRecord) -> int {
    r.raw_size_bytes + sum_sizes(r.encoded_variant_bytes@)
}

pub open spec fn sat_add(a: int, b: int) -> int {
    if a + b > u64::MAX {
        u64::MAX as int
    } else {
        a + b
    }
}

pub open spec fn sat_sub(a: int, b: int) -> int {
    if a - b < 0 {
        0
    } else {
        a - b
    }
}

/// The retained bytes of all records added to `start`, saturating.
pub open spec fn sat_total(rs: Seq<CacheRecord>, start: int) -> int
    decreases rs.len(),
{
    if rs.len() == 0 {
        start
    } else {
        sat_add(sat_total(rs.drop_last(), start), retained(rs.last()))
    }
}

pub open spec fn entry_of(kind: EntryKind, r: CacheRecord) -> EntryModel {
    EntryModel { kind, digest: r.digest@, last: r.last_referenced_millis, retained: retained(r) }
}

/// The entries referenced by no active workorder and last referenced no
/// later than the hard-delete cutoff, in order.
pub open spec fn hard_tier(rs: Seq<CacheRecord>, kind: EntryKind, active: Seq<Seq<char>>, hard_cut: int) -> Seq<EntryModel>
    decreases rs.len(),
{
    if rs.len() == 0 {
        Seq::empty()
    } else {
        let rest = hard_tier(rs.drop_last(), kind, active, hard_cut);
        let r = rs.last();
        if !active.contains(r.digest@) && r.last_referenced_millis <= hard_cut {
            rest.push(entry_of(kind, r))
        } else {
            rest
        }
    }
}

/// The unreferenced entries past the grace cutoff but not the hard-delete
/// cutoff, in order.
pub open spec fn grace_tier(
    rs: Seq<CacheRecord>,
    kind: EntryKind,
    active: Seq<Seq<char>>,
    hard_cut: int,
    grace_cut: int,
) -> Seq<EntryModel>
    decreases rs.len(),
{
    if rs.len() == 0 {
        Seq::empty()
    } else {
        let rest = grace_tier(rs.drop_last(), kind, active, hard_cut, grace_cut);
        let r = rs.last();
        if !active.contains(r.digest@) && !(r.last_referenced_millis <= hard_cut)
            && r.last_referenced_millis <= grace_cut {
            rest.push(entry_of(kind, r))
        } else {
            rest
        }
    }
}

/// Where an entry last referenced at `t` goes in a list kept in time
/// order: after every entry not later than it.
pub open spec fn insert_pos(s: Seq<EntryModel>, t: i64) -> int
    decreases s.len(),
{
    if s.len() == 0 {
        0
    } else if s[0].last > t {
        0
    } else {
        1 + insert_pos(s.drop_first(), t)
    }
}

/// The entries sorted by last reference, equal times keeping their order.
pub open spec fn sort_by_time(s: Seq<EntryModel>) -> Seq<EntryModel>
    decreases s.len(),
{
    if s.len() == 0 {
        Seq::empty()
    } else {
        let sorted = sort_by_time(s.drop_last());
        let p = insert_pos(sorted, s.last().last);
        sorted.take(p).push(s.last()) + sorted.skip(p)
    }
}

/// The candidates deleted one after another while the cache holds more
/// than the floor.
pub open spec fn walk(cands: Seq<EntryModel>, total: int, floor: int) -> Seq<EntryModel>
    decreases cands.len(),
{
    if cands.len() == 0 || total <= floor {
        Seq::empty()
    } else {
        seq![cands[0]] + walk(cands.drop_first(), sat_sub(total, cands[0].retained), floor)
    }
}

pub open spec fn cutoff(now: i64, hours: u64) -> int {
    now - hours * 3600000
}

/// The deletions of a cleanup pass: unreferenced entries past the
/// hard-delete cutoff in listing order (blobs, then trees), then those past
/// the grace cutoff, oldest first, each while the cache still holds more
/// than the floor.
pub open spec fn cleanup_deletions(
    blobs: Seq<CacheRecord>,
    trees: Seq<CacheRecord>,
    active_blobs: Seq<Seq<char>>,
    active_trees: Seq<Seq<char>>,
    policy: CleanupPolicy,
    now: i64,
) -> Seq<EntryModel> {
    let hc = cutoff(now, policy.hard_delete_hours);
    let gc = cutoff(now, policy.grace_period_hours);
    let total = sat_total(trees, sat_total(blobs, 0));
    let cands = hard_tier(blobs, EntryKind::Blob, active_blobs, hc) + hard_tier(
        trees,
        EntryKind::Tree,
        active_trees,
        hc,
    ) + sort_by_time(
        grace_tier(blobs, EntryKind::Blob, active_blobs, hc, gc) + grace_tier(
            trees,
            EntryKind::Tree,
            active_trees,
            hc,
            gc,
        ),
    );
    walk(cands, total, policy.min_retained_bytes as int)
}

pub open spec fn count_kind(s: Seq<EntryModel>, kind: EntryKind) -> int
    decreases s.len(),
{
    if s.len() == 0 {
        0
    } else {
        count_kind(s.drop_last(), kind) + if s.last().kind == kind {
            1int
        } else {
            0int
        }
    }
}

pub open spec fn sat_reclaimed(s: Seq<EntryModel>) -> int
    decreases s.len(),
{
    if s.len() == 0 {
        0
    } else {
        sat_add(sat_reclaimed(s.drop_last()), s.last().retained)
    }
}

pub open spec fn records_fit(rs: Seq<CacheRecord>) -> bool {
    forall|i: int| 0 <= i < rs.len() ==> retained(#[trigger] rs[i]) <= u64::MAX
}

proof fn lemma_sum_sizes_prefix(s: Seq<u64>, i: int)
    requires
        0 <= i <= s.len(),
    ensures
        0 <= sum_sizes(s.take(i)) <= sum_sizes(s),
    decreases s.len(),
{
    if i < s.len() {
        assert(s.drop_last().take(i) =~= s.take(i));
        lemma_sum_sizes_prefix(s.drop_last(), i);
    } else {
        assert(s.take(i) =~= s);
    }
    lemma_sum_sizes_nonneg(s);
}

proof fn lemma_sum_sizes_nonneg(s: Seq<u64>)
    ensures
        sum_sizes(s) >= 0,
    decreases s.len(),
{
    if s.len() > 0 {
        lemma_sum_sizes_nonneg(s.drop_last());
    }
}

fn retained_bytes(r: &CacheRecord) -> (n: u64)
    requires
        retained(*r) <= u64::MAX,
    ensures
        n == retained(*r),
{
    let mut n: u64 = r.raw_size_bytes;
    let mut i: usize = 0;
    while i < r.encoded_variant_bytes.len()
        invariant
            i <= r.encoded_variant_bytes.len(),
            retained(*r) <= u64::MAX,
            n == r.raw_size_bytes + sum_sizes(r.encoded_variant_bytes@.take(i as int)),
        decreases r.encoded_variant_bytes.len() - i,
    {
        proof {
            lemma_sum_sizes_prefix(r.encoded_variant_bytes@, i + 1);
            assert(r.encoded_variant_bytes@.take(i + 1).drop_last() =~= r.encoded_variant_bytes@.take(i as int));
        }
        n = n + r.encoded_variant_bytes[i];
        i += 1;
    }
    assert(r.encoded_variant_bytes@.take(r.encoded_variant_bytes.len() as int) =~= r.encoded_variant_bytes@);
    n
}

fn total_of(rs: &[CacheRecord], start: u64) -> (t: u64)
    requires
        records_fit(rs@),
    ensures
        t == sat_total(rs@, start as int),
{
    let mut t = start;
    let mut i: usize = 0;
    while i < rs.len()
        invariant
            i <= rs.len(),
            records_fit(rs@),
            t == sat_total(rs@.take(i as int), start as int),
        decreases rs.len() - i,
    {
        assert(rs@.take(i + 1).drop_last() =~= rs@.take(i as int));
        assert(retained(rs@[i as int]) <= u64::MAX);
        let b = retained_bytes(&rs[i]);
        t = t.saturating_add(b);
        i += 1;
    }
    assert(rs@.take(rs.len() as int) =~= rs@);
    t
}

fn entry_for(kind: EntryKind, r: &CacheRecord) -> (e: CleanupEntry)
    requires
        retained(*r) <= u64::MAX,
    ensures
        entry_view(e) == entry_of(kind, *r),
{
    CleanupEntry {
        kind,
        digest: r.digest.clone(),
        last_referenced_millis: r.last_referenced_millis,
        retained_bytes: retained_bytes(r),
    }
}

/// Sorts the unreferenced records of one kind into the two tiers.
fn classify(
    rs: &[CacheRecord],
    kind: EntryKind,
    active: &[String],
    hard_cut: i64,
    grace_cut: i64,
    hard: &mut Vec<CleanupEntry>,
    grace: &mut Vec<CleanupEntry>,
)
    requires
        records_fit(rs@),
    ensures
        entries_view(final(hard)@) == entries_view(old(hard)@) + hard_tier(rs@, kind, sv(active@), hard_cut as int),
        entries_view(final(grace)@) == entries_view(old(grace)@) + grace_tier(
            rs@,
            kind,
            sv(active@),
            hard_cut as int,
            grace_cut as int,
        ),
{
    let ghost h0 = entries_view(hard@);
    let ghost g0 = entries_view(grace@);
    let mut i: usize = 0;
    while i < rs.len()
        invariant
            i <= rs.len(),
            records_fit(rs@),
            entries_view(hard@) == h0 + hard_tier(rs@.take(i as int), kind, sv(active@), hard_cut as int),
            entries_view(grace@) == g0 + grace_tier(
                rs@.take(i as int),
                kind,
                sv(active@),
                hard_cut as int,
                grace_cut as int,
            ),
        decreases rs.len() - i,
    {
        let r = &rs[i];
        assert(rs@.take(i + 1).drop_last() =~= rs@.take(i as int));
        assert(rs@.take(i + 1).last() == *r);
        assert(retained(rs@[i as int]) <= u64::MAX);
        let is_active = list_contains(active, chars_of(r.digest.as_str()).as_slice());
        if !is_active && r.last_referenced_millis <= hard_cut {
            let e = entry_for(kind, r);
            let ghost before = hard@;
            hard.push(e);
            assert(entries_view(hard@) =~= entries_view(before).push(entry_view(e)));
        } else if !is_active && r.last_referenced_millis <= grace_cut {
            let e = entry_for(kind, r);
            let ghost before = grace@;
            grace.push(e);
            assert(entries_view(grace@) =~= entries_view(before).push(entry_view(e)));
        }
        i += 1;
    }
    assert(rs@.take(rs.len() as int) =~= rs@);
}

fn copy_entry(e: &CleanupEntry) -> (r: CleanupEntry)
    ensures
        r == *e,
{
    CleanupEntry {
        kind: e.kind,
        digest: e.digest.clone(),
        last_referenced_millis: e.last_referenced_millis,
        retained_bytes: e.retained_bytes,
    }
}

proof fn lemma_insert_pos(s: Seq<EntryModel>, t: i64, p: int)
    requires
        0 <= p <= s.len(),
        forall|j: int| 0 <= j < p ==> (#[trigger] s[j]).last <= t,
        p < s.len() ==> s[p].last > t,
    ensures
        insert_pos(s, t) == p,
    decreases p,
{
    if p > 0 {
        assert forall|j: int| 0 <= j < p - 1 implies (#[trigger] s.drop_first()[j]).last <= t by {
            assert(s.drop_first()[j] == s[j + 1]);
        }
        if p < s.len() {
            assert(s.drop_first()[p - 1] == s[p]);
        }
        lemma_insert_pos(s.drop_first(), t, p - 1);
    }
}

/// Sorts entries by last reference, keeping the order of equal times.
fn sort_entries_by_time(v: Vec<CleanupEntry>) -> (r: Vec<CleanupEntry>)
    ensures
        entries_view(r@) == sort_by_time(entries_view(v@)),
{
    let mut sorted: Vec<CleanupEntry> = Vec::new();
    let mut i: usize = 0;
    while i < v.len()
        invariant
            i <= v.len(),
            entries_view(sorted@) == sort_by_time(entries_view(v@).take(i as int)),
        decreases v.len() - i,
    {
        let e = copy_entry(&v[i]);
        let t = e.last_referenced_millis;
        let mut p: usize = 0;
        while p < sorted.len() && sorted[p].last_referenced_millis <= t
            invariant
                p <= sorted.len(),
                forall|j: int| 0 <= j < p ==> (#[trigger] entries_view(sorted@)[j]).last <= t,
            decreases sorted.len() - p,
        {
            p += 1;
        }
        proof {
            lemma_insert_pos(entries_view(sorted@), t, p as int);
            assert(entries_view(v@).take(i + 1).drop_last() =~= entries_view(v@).take(i as int));
            assert(entries_view(v@).take(i + 1).last() == entry_view(e));
        }
        let ghost before = entries_view(sorted@);
        sorted.insert(p, e);
        assert(entries_view(sorted@) =~= before.take(p as int).push(entry_view(e)) + before.skip(p as int));
        i += 1;
    }
    assert(entries_view(v@).take(v.len() as int) =~= entries_view(v@));
    sorted
}

/// Deletes candidates in order while the cache holds more than the floor.
fn walk_candidates(cands: &Vec<CleanupEntry>, total: u64, floor: u64) -> (r: Vec<CleanupEntry>)
    ensures
        entries_view(r@) == walk(entries_view(cands@), total as int, floor as int),
{
    let mut out: Vec<CleanupEntry> = Vec::new();
    let mut t = total;
    let mut i: usize = 0;
    assert(entries_view(cands@).skip(0) =~= entries_view(cands@));
    assert(entries_view(out@) + walk(entries_view(cands@), total as int, floor as int) =~= walk(entries_view(cands@), total as int, floor as int));
    while i < cands.len() && t > floor
        invariant
            i <= cands.len(),
            entries_view(out@) + walk(entries_view(cands@).skip(i as int), t as int, floor as int)
                == walk(entries_view(cands@), total as int, floor as int),
        decreases cands.len() - i,
    {
        let e = copy_entry(&cands[i]);
        let ghost rest = entries_view(cands@).skip(i as int);
        let ghost t_old = t as int;
        assert(rest[0] == entry_view(e));
        assert(rest.drop_first() =~= entries_view(cands@).skip(i + 1));
        let ghost before = entries_view(out@);
        t = t.saturating_sub(e.retained_bytes);
        out.push(e);
        assert(entries_view(out@) =~= before.push(entry_view(e)));
        assert(walk(rest, t_old, floor as int) == seq![entry_view(e)] + walk(
            entries_view(cands@).skip(i + 1),
            t as int,
            floor as int,
        ));
        assert(entries_view(out@) + walk(entries_view(cands@).skip(i + 1), t as int, floor as int)
            =~= before + walk(rest, t_old, floor as int));
        i += 1;
    }
    assert(entries_view(cands@).skip(i as int).len() == 0 || t <= floor);
    assert(entries_view(out@) + Seq::<EntryModel>::empty() =~= entries_view(out@));
    out
}

fn summarize(plan: &Vec<CleanupEntry>) -> (s: SnapshotCleanupSummary)
    ensures
        s.deleted_blobs == count_kind(entries_view(plan@), EntryKind::Blob),
        s.deleted_trees == count_kind(entries_view(plan@), EntryKind::Tree),
        s.reclaimed_bytes == sat_reclaimed(entries_view(plan@)),
{
    let mut blobs: usize = 0;
    let mut trees: usize = 0;
    let mut reclaimed: u64 = 0;
    let mut i: usize = 0;
    while i < plan.len()
        invariant
            i <= plan.len(),
            blobs == count_kind(entries_view(plan@).take(i as int), EntryKind::Blob),
            trees == count_kind(entries_view(plan@).take(i as int), EntryKind::Tree),
            blobs + trees <= i,
            reclaimed == sat_reclaimed(entries_view(plan@).take(i as int)),
        decreases plan.len() - i,
    {
        assert(entries_view(plan@).take(i + 1).drop_last() =~= entries_view(plan@).take(i as int));
        assert(entries_view(plan@).take(i + 1).last() == entry_view(plan@[i as int]));
        match plan[i].kind {
            EntryKind::Blob => {
                blobs += 1;
            },
            EntryKind::Tree => {
                trees += 1;
            },
        }
        reclaimed = reclaimed.saturating_add(plan[i].retained_bytes);
        i += 1;
    }
    assert(entries_view(plan@).take(plan.len() as int) =~= entries_view(plan@));
    SnapshotCleanupSummary { deleted_blobs: blobs, deleted_trees: trees, reclaimed_bytes: reclaimed }
}

fn cutoff_exec(now: i64, hours: u64) -> (c: i64)
    requires
        hours * 3600000 <= i64::MAX,
        cutoff(now, hours) >= i64::MIN,
    ensures
        c == cutoff(now, hours),
{
    let h = hours as i64;
    let ms = h * 3600000;
    now - ms
}

/// Plans a snapshot cache cleanup pass. The cache holds the retained bytes
/// of every stored blob and tree; entries referenced by an active workorder
/// are kept. Unreferenced entries last referenced before the hard-delete
/// cutoff go first, in listing order (blobs, then trees); then those before
/// the grace cutoff, oldest first. Each deletion happens only while the
/// cache still holds more than the floor, so nothing goes once it is at or
/// below it.
pub fn plan_snapshot_cleanup(
    blobs: &[CacheRecord],
    trees: &[CacheRecord],
    active_blobs: &[String],
    active_trees: &[String],
    policy: CleanupPolicy,
    now_millis: i64,
) -> (r: CleanupPlan)
    requires
        records_fit(blobs@),
        records_fit(trees@),
        policy.grace_period_hours * 3600000 <= i64::MAX,
        policy.hard_delete_hours * 3600000 <= i64::MAX,
        cutoff(now_millis, policy.grace_period_hours) >= i64::MIN,
        cutoff(now_millis, policy.hard_delete_hours) >= i64::MIN,
    ensures
        entries_view(r.deletions@) == cleanup_deletions(
            blobs@,
            trees@,
            sv(active_blobs@),
            sv(active_trees@),
            policy,
            now_millis,
        ),
        r.summary.deleted_blobs == count_kind(entries_view(r.deletions@), EntryKind::Blob),
        r.summary.deleted_trees == count_kind(entries_view(r.deletions@), EntryKind::Tree),
        r.summary.reclaimed_bytes == sat_reclaimed(entries_view(r.deletions@)),
{
    let hc = cutoff_exec(now_millis, policy.hard_delete_hours);
    let gc = cutoff_exec(now_millis, policy.grace_period_hours);
    let total = total_of(trees, total_of(blobs, 0));
    let mut hard: Vec<CleanupEntry> = Vec::new();
    let mut grace: Vec<CleanupEntry> = Vec::new();
    assert(entries_view(hard@) =~= Seq::<EntryModel>::empty());
    assert(entries_view(grace@) =~= Seq::<EntryModel>::empty());
    classify(blobs, EntryKind::Blob, active_blobs, hc, gc, &mut hard, &mut grace);
    classify(trees, EntryKind::Tree, active_trees, hc, gc, &mut hard, &mut grace);
    let sorted = sort_entries_by_time(grace);
    let ghost hv = entries_view(hard@);
    let mut cands = hard;
    let mut k: usize = 0;
    while k < sorted.len()
        invariant
            k <= sorted.len(),
            entries_view(cands@) == hv + entries_view(sorted@).take(k as int),
        decreases sorted.len() - k,
    {
        let e = copy_entry(&sorted[k]);
        let ghost before = entries_view(cands@);
        cands.push(e);
        assert(entries_view(cands@) =~= before.push(entry_view(e)));
        assert(entries_view(sorted@).take(k + 1) =~= entries_view(sorted@).take(k as int).push(entry_view(e)));
        k += 1;
    }
    assert(entries_view(sorted@).take(sorted.len() as int) =~= entries_view(sorted@));
    let deletions = walk_candidates(&cands, total, policy.min_retained_bytes);
    let summary = summarize(&deletions);
    CleanupPlan { deletions, summary }
}

/// An entry that no active workorder references.
pub open spec fn unreferenced(e: EntryModel, active_blobs: Seq<Seq<char>>, active_trees: Seq<Seq<char>>) -> bool {
    &&& (e.kind == EntryKind::Blob ==> !active_blobs.contains(e.digest))
    &&& (e.kind == EntryKind::Tree ==> !active_trees.contains(e.digest))
}

pub open spec fn all_unreferenced(s: Seq<EntryModel>, ab: Seq<Seq<char>>, at: Seq<Seq<char>>) -> bool {
    forall|i: int| 0 <= i < s.len() ==> unreferenced(#[trigger] s[i], ab, at)
}

proof fn lemma_hard_tier_unreferenced(
    rs: Seq<CacheRecord>,
    kind: EntryKind,
    active: Seq<Seq<char>>,
    hc: int,
    ab: Seq<Seq<char>>,
    at: Seq<Seq<char>>,
)
    requires
        kind == EntryKind::Blob ==> active == ab,
        kind == EntryKind::Tree ==> active == at,
    ensures
        all_unreferenced(hard_tier(rs, kind, active, hc), ab, at),
    decreases rs.len(),
{
    if rs.len() > 0 {
        lemma_hard_tier_unreferenced(rs.drop_last(), kind, active, hc, ab, at);
    }
}

proof fn lemma_grace_tier_unreferenced(
    rs: Seq<CacheRecord>,
    kind: EntryKind,
    active: Seq<Seq<char>>,
    hc: int,
    gc: int,
    ab: Seq<Seq<char>>,
    at: Seq<Seq<char>>,
)
    requires
        kind == EntryKind::Blob ==> active == ab,
        kind == EntryKind::Tree ==> active == at,
    ensures
        all_unreferenced(grace_tier(rs, kind, active, hc, gc), ab, at),
    decreases rs.len(),
{
    if rs.len() > 0 {
        lemma_grace_tier_unreferenced(rs.drop_last(), kind, active, hc, gc, ab, at);
    }
}

proof fn lemma_sort_keeps_unreferenced(s: Seq<EntryModel>, ab: Seq<Seq<char>>, at: Seq<Seq<char>>)
    requires
        all_unreferenced(s, ab, at),
    ensures
        all_unreferenced(sort_by_time(s), ab, at),
        sort_by_time(s).len() == s.len(),
    decreases s.len(),
{
    if s.len() > 0 {
        lemma_sort_keeps_unreferenced(s.drop_last(), ab, at);
        let sorted = sort_by_time(s.drop_last());
        lemma_insert_pos_range(sorted, s.last().last);
        let p = insert_pos(sorted, s.last().last);
        let r = sorted.take(p).push(s.last()) + sorted.skip(p);
        assert forall|i: int| 0 <= i < r.len() implies unreferenced(#[trigger] r[i], ab, at) by {
            if i < p {
                assert(r[i] == sorted[i]);
            } else if i == p {
                assert(r[i] == s.last());
                assert(s.last() == s[s.len() - 1]);
            } else {
                assert(r[i] == sorted[i - 1]);
            }
        }
    }
}

proof fn lemma_insert_pos_range(s: Seq<EntryModel>, t: i64)
    ensures
        0 <= insert_pos(s, t) <= s.len(),
    decreases s.len(),
{
    if s.len() > 0 && s[0].last <= t {
        lemma_insert_pos_range(s.drop_first(), t);
    }
}

proof fn lemma_walk_keeps_unreferenced(c: Seq<EntryModel>, total: int, floor: int, ab: Seq<Seq<char>>, at: Seq<Seq<char>>)
    requires
        all_unreferenced(c, ab, at),
    ensures
        all_unreferenced(walk(c, total, floor), ab, at),
    decreases c.len(),
{
    if c.len() > 0 && total > floor {
        assert(all_unreferenced(c.drop_first(), ab, at)) by {
            assert forall|i: int| 0 <= i < c.drop_first().len() implies unreferenced(
                #[trigger] c.drop_first()[i],
                ab,
                at,
            ) by {
                assert(c.drop_first()[i] == c[i + 1]);
            }
        }
        lemma_walk_keeps_unreferenced(c.drop_first(), sat_sub(total, c[0].retained), floor, ab, at);
        let w = walk(c, total, floor);
        let rest = walk(c.drop_first(), sat_sub(total, c[0].retained), floor);
        assert forall|i: int| 0 <= i < w.len() implies unreferenced(#[trigger] w[i], ab, at) by {
            if i > 0 {
                assert(w[i] == rest[i - 1]);
            }
        }
    }
}

/// A cleanup pass never deletes a blob or tree that an active workorder
/// references.
pub proof fn law_cleanup_spares_active_references(
    blobs: Seq<CacheRecord>,
    trees: Seq<CacheRecord>,
    active_blobs: Seq<Seq<char>>,
    active_trees: Seq<Seq<char>>,
    policy: CleanupPolicy,
    now: i64,
)
    ensures
        all_unreferenced(
            cleanup_deletions(blobs, trees, active_blobs, active_trees, policy, now),
            active_blobs,
            active_trees,
        ),
{
    let hc = cutoff(now, policy.hard_delete_hours);
    let gc = cutoff(now, policy.grace_period_hours);
    let h1 = hard_tier(blobs, EntryKind::Blob, active_blobs, hc);
    let h2 = hard_tier(trees, EntryKind::Tree, active_trees, hc);
    let g1 = grace_tier(blobs, EntryKind::Blob, active_blobs, hc, gc);
    let g2 = grace_tier(trees, EntryKind::Tree, active_trees, hc, gc);
    lemma_hard_tier_unreferenced(blobs, EntryKind::Blob, active_blobs, hc, active_blobs, active_trees);
    lemma_hard_tier_unreferenced(trees, EntryKind::Tree, active_trees, hc, active_blobs, active_trees);
    lemma_grace_tier_unreferenced(blobs, EntryKind::Blob, active_blobs, hc, gc, active_blobs, active_trees);
    lemma_grace_tier_unreferenced(trees, EntryKind::Tree, active_trees, hc, gc, active_blobs, active_trees);
    lemma_concat_unreferenced(g1, g2, active_blobs, active_trees);
    lemma_sort_keeps_unreferenced(g1 + g2, active_blobs, active_trees);
    lemma_concat_unreferenced(h1, h2, active_blobs, active_trees);
    lemma_concat_unreferenced(h1 + h2, sort_by_time(g1 + g2), active_blobs, active_trees);
    let total = sat_total(trees, sat_total(blobs, 0));
    lemma_walk_keeps_unreferenced(
        h1 + h2 + sort_by_time(g1 + g2),
        total,
        policy.min_retained_bytes as int,
        active_blobs,
        active_trees,
    );
}

proof fn lemma_concat_unreferenced(a: Seq<EntryModel>, b: Seq<EntryModel>, ab: Seq<Seq<char>>, at: Seq<Seq<char>>)
    requires
        all_unreferenced(a, ab, at),
        all_unreferenced(b, ab, at),
    ensures
        all_unreferenced(a + b, ab, at),
{
    assert forall|i: int| 0 <= i < (a + b).len() implies unreferenced(#[trigger] (a + b)[i], ab, at) by {
        if i < a.len() {
            assert((a + b)[i] == a[i]);
        } else {
            assert((a + b)[i] == b[i - a.len()]);
        }
    }
}

/// A cache that holds no more than its floor loses nothing to a cleanup
/// pass.
pub proof fn law_cleanup_stops_at_floor(
    blobs: Seq<CacheRecord>,
    trees: Seq<CacheRecord>,
    active_blobs: Seq<Seq<char>>,
    active_trees: Seq<Seq<char>>,
    policy: CleanupPolicy,
    now: i64,
)
    requires
        sat_total(trees, sat_total(blobs, 0)) <= policy.min_retained_bytes,
    ensures
        cleanup_deletions(blobs, trees, active_blobs, active_trees, policy, now).len() == 0,
{
}

proof fn lemma_insert_pos_props(s: Seq<EntryModel>, t: i64)
    ensures
        0 <= insert_pos(s, t) <= s.len(),
        forall|j: int| 0 <= j < insert_pos(s, t) ==> (#[trigger] s[j]).last <= t,
        insert_pos(s, t) < s.len() ==> s[insert_pos(s, t)].last > t,
    decreases s.len(),
{
    if s.len() > 0 && s[0].last <= t {
        lemma_insert_pos_props(s.drop_first(), t);
        assert forall|j: int| 0 <= j < insert_pos(s, t) implies (#[trigger] s[j]).last <= t by {
            if j > 0 {
                assert(s[j] == s.drop_first()[j - 1]);
            }
        }
    }
}

/// Whether entries come oldest first.
pub open spec fn time_ordered(s: Seq<EntryModel>) -> bool {
    forall|i: int, j: int| 0 <= i < j < s.len() ==> (#[trigger] s[i]).last <= (#[trigger] s[j]).last
}

/// The grace-tier candidates are taken oldest first: sorting by last
/// reference puts every entry no later than the ones after it, and keeps
/// their number.
pub proof fn law_grace_candidates_oldest_first(s: Seq<EntryModel>)
    ensures
        time_ordered(sort_by_time(s)),
        sort_by_time(s).len() == s.len(),
    decreases s.len(),
{
    if s.len() > 0 {
        law_grace_candidates_oldest_first(s.drop_last());
        let sorted = sort_by_time(s.drop_last());
        let t = s.last().last;
        lemma_insert_pos_props(sorted, t);
        let p = insert_pos(sorted, t);
        let r = sorted.take(p).push(s.last()) + sorted.skip(p);
        assert forall|i: int, j: int| 0 <= i < j < r.len() implies (#[trigger] r[i]).last <= (#[trigger] r[j]).last by {
            if j < p {
                assert(r[i] == sorted[i] && r[j] == sorted[j]);
            } else if j == p {
                assert(r[i] == sorted[i]);
            } else if i < p {
                assert(r[i] == sorted[i] && r[j] == sorted[j - 1]);
            } else if i == p {
                assert(r[j] == sorted[j - 1]);
                assert(sorted[p].last > t);
                assert(sorted[p].last <= sorted[j - 1].last || p == j - 1);
            } else {
                assert(r[i] == sorted[i - 1] && r[j] == sorted[j - 1]);
            }
        }
    }
}

} // verus!

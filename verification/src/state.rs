//! Server bookkeeping that outlives a request: the snapshot references of
//! staged workorders, which keep their blobs and trees from cleanup, and
//! the eviction of finished workorders by age and by count.
use std::collections::HashMap;

use vstd::prelude::*;

verus! {

broadcast use vstd::std_specs::hash::group_hash_axioms;

/// The stored blobs and trees that a staged workorder uses.
#[derive(Debug, Clone, PartialEq, Eq)]
pub struct SnapshotReferenceSet {
    pub blob_digests: Vec<String>,
    pub tree_digests: Vec<String>,
    pub total_blob_bytes: u64,
    pub total_tree_bytes: u64,
    /// When they were last referenced, in milliseconds since the Unix epoch.
    pub last_referenced_millis: i64,
}

/// Records the references of a staged workorder, replacing earlier ones.
pub fn track_staged_workorder_references(
    staged: &mut HashMap<u128, SnapshotReferenceSet>,
    id: u128,
    references: SnapshotReferenceSet,
)
    ensures
        final(staged)@ == old(staged)@.insert(id, references),
{
    staged.insert(id, references);
}

/// Forgets the references of a workorder.
pub fn clear_staged_workorder_references(staged: &mut HashMap<u128, SnapshotReferenceSet>, id: &u128)
    ensures
        final(staged)@ == old(staged)@.remove(*id),
{
    staged.remove(id);
}

/// Tracking a workorder again replaces its references; clearing it forgets
/// them and leaves the other workorders alone.
pub proof fn law_tracking_replaces_and_clearing_forgets(
    m: Map<u128, SnapshotReferenceSet>,
    id: u128,
    first: SnapshotReferenceSet,
    second: SnapshotReferenceSet,
    other: u128,
)
    requires
        other != id,
    ensures
        m.insert(id, first).insert(id, second)[id] == second,
        !m.insert(id, first).remove(id).contains_key(id),
        m.insert(id, first).remove(id).contains_key(other) == m.contains_key(other),
{
}

/// A workorder as eviction sees it.
#[derive(Debug, Clone, Copy, PartialEq, Eq, Structural)]
pub struct RetainedWorkorder {
    pub id: u128,
    /// Completed, cancelled or failed.
    pub terminal: bool,
    /// Last status change, in milliseconds since the Unix epoch.
    pub updated_at_millis: i64,
}

/// The workorders an eviction pass removes: those past the retention
/// period, then those over the count cap.
#[derive(Debug, Clone, PartialEq, Eq)]
pub struct EvictionPlan {
    pub stale: Vec<u128>,
    pub over_cap: Vec<u128>,
}

pub open spec fn is_stale(w: RetainedWorkorder, cutoff: int) -> bool {
    w.terminal && w.updated_at_millis < cutoff
}

/// The stale workorders' ids, in order.
pub open spec fn stale_ids(ws: Seq<RetainedWorkorder>, cutoff: int) -> Seq<u128>
    decreases ws.len(),
{
    if ws.len() == 0 {
        Seq::empty()
    } else if is_stale(ws.last(), cutoff) {
        stale_ids(ws.drop_last(), cutoff).push(ws.last().id)
    } else {
        stale_ids(ws.drop_last(), cutoff)
    }
}

/// The workorders left after the stale ones go, in order.
pub open spec fn kept(ws: Seq<RetainedWorkorder>, cutoff: int) -> Seq<RetainedWorkorder>
    decreases ws.len(),
{
    if ws.len() == 0 {
        Seq::empty()
    } else if is_stale(ws.last(), cutoff) {
        kept(ws.drop_last(), cutoff)
    } else {
        kept(ws.drop_last(), cutoff).push(ws.last())
    }
}

/// The terminal workorders among `ws`, in order.
pub open spec fn terminal_of(ws: Seq<RetainedWorkorder>) -> Seq<RetainedWorkorder>
    decreases ws.len(),
{
    if ws.len() == 0 {
        Seq::empty()
    } else if ws.last().terminal {
        terminal_of(ws.drop_last()).push(ws.last())
    } else {
        terminal_of(ws.drop_last())
    }
}

/// Where a workorder updated at `t` goes in a list kept in time order:
/// after every one not later than it.
pub open spec fn time_pos(s: Seq<RetainedWorkorder>, t: i64) -> int
    decreases s.len(),
{
    if s.len() == 0 {
        0
    } else if s[0].updated_at_millis > t {
        0
    } else {
        1 + time_pos(s.drop_first(), t)
    }
}

/// The workorders sorted by last update, equal times keeping their order.
pub open spec fn by_update_time(s: Seq<RetainedWorkorder>) -> Seq<RetainedWorkorder>
    decreases s.len(),
{
    if s.len() == 0 {
        Seq::empty()
    } else {
        let sorted = by_update_time(s.drop_last());
        let p = time_pos(sorted, s.last().updated_at_millis);
        sorted.take(p).push(s.last()) + sorted.skip(p)
    }
}

pub open spec fn ids_of(s: Seq<RetainedWorkorder>) -> Seq<u128> {
    s.map_values(|w: RetainedWorkorder| w.id)
}

/// The workorders over the cap: when a cap is set and more workorders
/// than it are left, the oldest terminal ones, as many as the excess (or
/// all of them when there are fewer).
pub open spec fn over_cap_ids(left: Seq<RetainedWorkorder>, cap: int) -> Seq<u128> {
    if cap > 0 && left.len() > cap {
        let excess = left.len() - cap;
        let sorted = by_update_time(terminal_of(left));
        ids_of(
            if sorted.len() <= excess {
                sorted
            } else {
                sorted.take(excess)
            },
        )
    } else {
        Seq::empty()
    }
}

pub open spec fn retention_cutoff(now: i64, hours: u64) -> int {
    now - hours * 3600000
}

fn stale_and_kept(ws: &[RetainedWorkorder], cutoff: i64) -> (r: (Vec<u128>, Vec<RetainedWorkorder>))
    ensures
        r.0@ == stale_ids(ws@, cutoff as int),
        r.1@ == kept(ws@, cutoff as int),
{
    let mut stale: Vec<u128> = Vec::new();
    let mut left: Vec<RetainedWorkorder> = Vec::new();
    let mut i: usize = 0;
    while i < ws.len()
        invariant
            i <= ws.len(),
            stale@ == stale_ids(ws@.take(i as int), cutoff as int),
            left@ == kept(ws@.take(i as int), cutoff as int),
        decreases ws.len() - i,
    {
        let w = ws[i];
        assert(ws@.take(i + 1).drop_last() =~= ws@.take(i as int));
        assert(ws@.take(i + 1).last() == w);
        if w.terminal && w.updated_at_millis < cutoff {
            stale.push(w.id);
        } else {
            left.push(w);
        }
        i += 1;
    }
    assert(ws@.take(ws.len() as int) =~= ws@);
    (stale, left)
}

fn terminal_exec(ws: &Vec<RetainedWorkorder>) -> (r: Vec<RetainedWorkorder>)
    ensures
        r@ == terminal_of(ws@),
{
    let mut out: Vec<RetainedWorkorder> = Vec::new();
    let mut i: usize = 0;
    while i < ws.len()
        invariant
            i <= ws.len(),
            out@ == terminal_of(ws@.take(i as int)),
        decreases ws.len() - i,
    {
        assert(ws@.take(i + 1).drop_last() =~= ws@.take(i as int));
        assert(ws@.take(i + 1).last() == ws@[i as int]);
        if ws[i].terminal {
            out.push(ws[i]);
        }
        i += 1;
    }
    assert(ws@.take(ws.len() as int) =~= ws@);
    out
}

proof fn lemma_time_pos(s: Seq<RetainedWorkorder>, t: i64, p: int)
    requires
        0 <= p <= s.len(),
        forall|j: int| 0 <= j < p ==> (#[trigger] s[j]).updated_at_millis <= t,
        p < s.len() ==> s[p].updated_at_millis > t,
    ensures
        time_pos(s, t) == p,
    decreases p,
{
    if p > 0 {
        assert forall|j: int| 0 <= j < p - 1 implies (#[trigger] s.drop_first()[j]).updated_at_millis <= t by {
            assert(s.drop_first()[j] == s[j + 1]);
        }
        if p < s.len() {
            assert(s.drop_first()[p - 1] == s[p]);
        }
        lemma_time_pos(s.drop_first(), t, p - 1);
    }
}

fn sort_by_update_time(v: &Vec<RetainedWorkorder>) -> (r: Vec<RetainedWorkorder>)
    ensures
        r@ == by_update_time(v@),
{
    let mut sorted: Vec<RetainedWorkorder> = Vec::new();
    let mut i: usize = 0;
    while i < v.len()
        invariant
            i <= v.len(),
            sorted@ == by_update_time(v@.take(i as int)),
        decreases v.len() - i,
    {
        let w = v[i];
        let t = w.updated_at_millis;
        let mut p: usize = 0;
        while p < sorted.len() && sorted[p].updated_at_millis <= t
            invariant
                p <= sorted.len(),
                forall|j: int| 0 <= j < p ==> (#[trigger] sorted@[j]).updated_at_millis <= t,
            decreases sorted.len() - p,
        {
            p += 1;
        }
        proof {
            lemma_time_pos(sorted@, t, p as int);
            assert(v@.take(i + 1).drop_last() =~= v@.take(i as int));
            assert(v@.take(i + 1).last() == w);
        }
        let ghost before = sorted@;
        sorted.insert(p, w);
        assert(sorted@ =~= before.take(p as int).push(w) + before.skip(p as int));
        i += 1;
    }
    assert(v@.take(v.len() as int) =~= v@);
    sorted
}

/// Plans an eviction pass: terminal workorders last updated before the
/// retention cutoff go; then, when a cap is set and more workorders than
/// it are left, the oldest terminal ones go until the count is at the cap
/// (or no terminal one is left). Workorders that are still running are
/// never evicted.
pub fn plan_workorder_eviction(
    workorders: &[RetainedWorkorder],
    retention_hours: u64,
    max_retained: usize,
    now_millis: i64,
) -> (r: EvictionPlan)
    requires
        retention_hours * 3600000 <= i64::MAX,
        retention_cutoff(now_millis, retention_hours) >= i64::MIN,
    ensures
        r.stale@ == stale_ids(workorders@, retention_cutoff(now_millis, retention_hours)),
        r.over_cap@ == over_cap_ids(
            kept(workorders@, retention_cutoff(now_millis, retention_hours)),
            max_retained as int,
        ),
{
    let h = retention_hours as i64;
    let cutoff = now_millis - h * 3600000;
    let (stale, left) = stale_and_kept(workorders, cutoff);
    let mut over_cap: Vec<u128> = Vec::new();
    if max_retained > 0 && left.len() > max_retained {
        let excess = left.len() - max_retained;
        let terminal = terminal_exec(&left);
        let sorted = sort_by_update_time(&terminal);
        let n = if sorted.len() <= excess {
            sorted.len()
        } else {
            excess
        };
        let ghost chosen = if sorted@.len() <= excess {
            sorted@
        } else {
            sorted@.take(excess as int)
        };
        let mut i: usize = 0;
        while i < n
            invariant
                i <= n,
                n <= sorted.len(),
                n == chosen.len(),
                forall|j: int| 0 <= j < n ==> chosen[j] == sorted@[j],
                over_cap@ == ids_of(chosen.take(i as int)),
            decreases n - i,
        {
            over_cap.push(sorted[i].id);
            assert(ids_of(chosen.take(i + 1)) =~= ids_of(chosen.take(i as int)).push(sorted@[i as int].id));
            i += 1;
        }
        assert(chosen.take(n as int) =~= chosen);
    } else {
        assert(over_cap@ =~= Seq::<u128>::empty());
    }
    EvictionPlan { stale, over_cap }
}

proof fn lemma_time_pos_range(s: Seq<RetainedWorkorder>, t: i64)
    ensures
        0 <= time_pos(s, t) <= s.len(),
    decreases s.len(),
{
    if s.len() > 0 && s[0].updated_at_millis <= t {
        lemma_time_pos_range(s.drop_first(), t);
    }
}

proof fn lemma_sorted_from_input(s: Seq<RetainedWorkorder>)
    ensures
        by_update_time(s).len() == s.len(),
        forall|i: int| 0 <= i < s.len() ==> s.contains(#[trigger] by_update_time(s)[i]),
    decreases s.len(),
{
    if s.len() > 0 {
        lemma_sorted_from_input(s.drop_last());
        let sorted = by_update_time(s.drop_last());
        lemma_time_pos_range(sorted, s.last().updated_at_millis);
        let p = time_pos(sorted, s.last().updated_at_millis);
        let r = sorted.take(p).push(s.last()) + sorted.skip(p);
        assert forall|i: int| 0 <= i < s.len() implies s.contains(#[trigger] r[i]) by {
            if i < p {
                assert(r[i] == sorted[i]);
                let j = choose|j: int| 0 <= j < s.drop_last().len() && s.drop_last()[j] == sorted[i];
                assert(s[j] == r[i]);
            } else if i == p {
                assert(s[s.len() - 1] == r[i]);
            } else {
                assert(r[i] == sorted[i - 1]);
                let j = choose|j: int| 0 <= j < s.drop_last().len() && s.drop_last()[j] == sorted[i - 1];
                assert(s[j] == r[i]);
            }
        }
    }
}

proof fn lemma_terminal_of(ws: Seq<RetainedWorkorder>)
    ensures
        forall|i: int| 0 <= i < terminal_of(ws).len() ==> (#[trigger] terminal_of(ws)[i]).terminal && ws.contains(
            terminal_of(ws)[i],
        ),
    decreases ws.len(),
{
    if ws.len() > 0 {
        lemma_terminal_of(ws.drop_last());
        let t = terminal_of(ws);
        let rest = terminal_of(ws.drop_last());
        assert forall|i: int| 0 <= i < t.len() implies (#[trigger] t[i]).terminal && ws.contains(t[i]) by {
            if i < rest.len() {
                assert(t[i] == rest[i]);
                let j = choose|j: int| 0 <= j < ws.drop_last().len() && ws.drop_last()[j] == rest[i];
                assert(ws[j] == t[i]);
            } else {
                assert(t[i] == ws[ws.len() - 1]);
            }
        }
    }
}

proof fn lemma_kept_from_input(ws: Seq<RetainedWorkorder>, cutoff: int)
    ensures
        forall|i: int| 0 <= i < kept(ws, cutoff).len() ==> ws.contains(#[trigger] kept(ws, cutoff)[i]),
    decreases ws.len(),
{
    if ws.len() > 0 {
        lemma_kept_from_input(ws.drop_last(), cutoff);
        let k = kept(ws, cutoff);
        let rest = kept(ws.drop_last(), cutoff);
        assert forall|i: int| 0 <= i < k.len() implies ws.contains(#[trigger] k[i]) by {
            if i < rest.len() {
                assert(k[i] == rest[i]);
                let j = choose|j: int| 0 <= j < ws.drop_last().len() && ws.drop_last()[j] == rest[i];
                assert(ws[j] == k[i]);
            } else {
                assert(k[i] == ws[ws.len() - 1]);
            }
        }
    }
}

/// Whether `ws` holds a terminal workorder with this id.
pub open spec fn names_terminal(ws: Seq<RetainedWorkorder>, id: u128) -> bool {
    exists|w: RetainedWorkorder| #[trigger] ws.contains(w) && w.terminal && w.id == id
}

proof fn lemma_stale_ids_terminal(ws: Seq<RetainedWorkorder>, cutoff: int)
    ensures
        forall|i: int| 0 <= i < stale_ids(ws, cutoff).len() ==> names_terminal(ws, #[trigger] stale_ids(ws, cutoff)[i]),
    decreases ws.len(),
{
    if ws.len() > 0 {
        lemma_stale_ids_terminal(ws.drop_last(), cutoff);
        let s = stale_ids(ws, cutoff);
        let rest = stale_ids(ws.drop_last(), cutoff);
        assert forall|i: int| 0 <= i < s.len() implies names_terminal(ws, #[trigger] s[i]) by {
            if i < rest.len() {
                assert(s[i] == rest[i]);
                assert(names_terminal(ws.drop_last(), rest[i]));
                let w = choose|w: RetainedWorkorder| #[trigger] ws.drop_last().contains(w) && w.terminal && w.id == rest[i];
                let j = choose|j: int| 0 <= j < ws.drop_last().len() && ws.drop_last()[j] == w;
                assert(ws[j] == w);
                assert(ws.contains(w));
            } else {
                assert(ws[ws.len() - 1] == ws.last());
                assert(ws.contains(ws.last()));
            }
        }
    }
}

/// An eviction pass removes only finished workorders: every id it names,
/// past the retention period or over the cap, is that of a terminal
/// workorder.
pub proof fn law_eviction_spares_running_workorders(
    ws: Seq<RetainedWorkorder>,
    cutoff: int,
    cap: int,
)
    ensures
        forall|i: int| 0 <= i < stale_ids(ws, cutoff).len() ==> names_terminal(ws, #[trigger] stale_ids(ws, cutoff)[i]),
        forall|i: int| 0 <= i < over_cap_ids(kept(ws, cutoff), cap).len() ==> names_terminal(ws, #[trigger] over_cap_ids(kept(ws, cutoff), cap)[i]),
{
    lemma_stale_ids_terminal(ws, cutoff);
    let left = kept(ws, cutoff);
    lemma_kept_from_input(ws, cutoff);
    lemma_terminal_of(left);
    let t = terminal_of(left);
    lemma_sorted_from_input(t);
    let o = over_cap_ids(left, cap);
    if cap > 0 && left.len() > cap {
        let sorted = by_update_time(t);
        assert forall|i: int| 0 <= i < o.len() implies names_terminal(ws, #[trigger] o[i]) by {
            let w = sorted[i];
            assert(o[i] == w.id);
            assert(t.contains(w));
            let j = choose|j: int| 0 <= j < t.len() && t[j] == w;
            assert(left.contains(t[j]));
            let k = choose|k: int| 0 <= k < left.len() && left[k] == w;
            assert(ws.contains(left[k]));
            assert(ws.contains(w));
        }
    }
}

/// After an eviction pass with a cap, no more workorders than the cap are
/// left, unless every terminal one was evicted.
pub proof fn law_eviction_enforces_cap(left: Seq<RetainedWorkorder>, cap: int)
    requires
        cap > 0,
    ensures
        left.len() - over_cap_ids(left, cap).len() <= cap || over_cap_ids(left, cap).len()
            == terminal_of(left).len(),
{
    lemma_sorted_from_input(terminal_of(left));
}

/// The retention pass evicts exactly the terminal workorders last updated
/// before the cutoff: every such workorder is listed, every listed ID is
/// one of them, and the workorders kept are exactly the others, in order.
pub proof fn law_retention_evicts_exactly_the_stale(ws: Seq<RetainedWorkorder>, cutoff: int)
    ensures
        forall|i: int| 0 <= i < ws.len() && is_stale(#[trigger] ws[i], cutoff) ==> stale_ids(
            ws,
            cutoff,
        ).contains(ws[i].id),
        forall|k: int| 0 <= k < stale_ids(ws, cutoff).len() ==> exists|i: int|
            0 <= i < ws.len() && is_stale(#[trigger] ws[i], cutoff) && ws[i].id == #[trigger] stale_ids(
                ws,
                cutoff,
            )[k],
        kept(ws, cutoff) == ws.filter(|w: RetainedWorkorder| !is_stale(w, cutoff)),
    decreases ws.len(),
{
    if ws.len() > 0 {
        let t = ws.drop_last();
        law_retention_evicts_exactly_the_stale(t, cutoff);
        let st = stale_ids(ws, cutoff);
        let s0 = stale_ids(t, cutoff);
        assert forall|i: int| 0 <= i < ws.len() && is_stale(#[trigger] ws[i], cutoff) implies st.contains(ws[i].id) by {
            if i < ws.len() - 1 {
                assert(t[i] == ws[i]);
                let k = choose|k: int| 0 <= k < s0.len() && s0[k] == t[i].id;
                if is_stale(ws.last(), cutoff) {
                    assert(st[k] == s0[k]);
                }
            } else {
                assert(st[s0.len() as int] == ws.last().id);
            }
        }
        assert forall|k: int| 0 <= k < st.len() implies exists|i: int|
            0 <= i < ws.len() && is_stale(#[trigger] ws[i], cutoff) && ws[i].id == #[trigger] st[k] by {
            if k < s0.len() {
                assert(st[k] == s0[k]);
                let i = choose|i: int|
                    0 <= i < t.len() && is_stale(#[trigger] t[i], cutoff) && t[i].id == s0[k];
                assert(ws[i] == t[i]);
            } else {
                assert(ws[ws.len() - 1] == ws.last());
            }
        }
        reveal(Seq::filter);
    } else {
        reveal(Seq::filter);
    }
}

} // verus!

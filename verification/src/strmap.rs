//! A map from strings to values that keeps its keys in ascending string
//! order, as `BTreeMap<String, V>` does: lookups, inserts that replace an
//! existing value, and iteration in key order.
use vstd::prelude::*;

use crate::text::{chars_of, lemma_take_push};
use crate::version::{order_lex, Order, flip};

verus! {

/// `a` sorts strictly before `b` (code point order, as `str::cmp` orders).
pub open spec fn key_lt(a: Seq<char>, b: Seq<char>) -> bool {
    order_lex(a, b) == Order::Less
}

pub proof fn lemma_order_lex_eq(a: Seq<char>, b: Seq<char>)
    ensures
        (order_lex(a, b) == Order::Equal) == (a == b),
    decreases a.len(),
{
    if a.len() == 0 || b.len() == 0 {
        if a.len() == 0 && b.len() == 0 {
            assert(a =~= b);
        } else {
            assert(a.len() != b.len());
        }
    } else if (a[0] as int) != (b[0] as int) {
        assert(a[0] != b[0]);
        assert(a != b);
    } else {
        assert(a[0] == b[0]);
        lemma_order_lex_eq(a.drop_first(), b.drop_first());
        if a.drop_first() == b.drop_first() {
            assert(a =~= b) by {
                assert forall|i: int| 0 <= i < a.len() implies a[i] == b[i] by {
                    if i > 0 {
                        assert(a[i] == a.drop_first()[i - 1]);
                        assert(b[i] == b.drop_first()[i - 1]);
                    }
                }
            }
        }
        if a == b {
            assert(a.drop_first() =~= b.drop_first());
        }
    }
}

pub proof fn lemma_order_lex_flip(a: Seq<char>, b: Seq<char>)
    ensures
        order_lex(a, b) == flip(order_lex(b, a)),
    decreases a.len(),
{
    if a.len() > 0 && b.len() > 0 && (a[0] as int) == (b[0] as int) {
        lemma_order_lex_flip(a.drop_first(), b.drop_first());
    }
}

pub proof fn lemma_key_lt_trans(a: Seq<char>, b: Seq<char>, c: Seq<char>)
    requires
        key_lt(a, b),
        key_lt(b, c),
    ensures
        key_lt(a, c),
    decreases a.len(),
{
    if a.len() > 0 && b.len() > 0 && c.len() > 0 && (a[0] as int) == (b[0] as int) && (b[0] as int) == (c[0] as int) {
        lemma_key_lt_trans(a.drop_first(), b.drop_first(), c.drop_first());
    }
}

pub proof fn lemma_key_lt_irrefl(a: Seq<char>)
    ensures
        !key_lt(a, a),
{
    lemma_order_lex_eq(a, a);
}

/// Keys of a list of entries.
pub open spec fn keys_of<V>(e: Seq<(String, V)>) -> Seq<Seq<char>> {
    e.map_values(|p: (String, V)| p.0@)
}

/// The keys ascend strictly.
pub open spec fn sorted_keys(k: Seq<Seq<char>>) -> bool {
    forall|i: int, j: int| 0 <= i < j < k.len() ==> key_lt(#[trigger] k[i], #[trigger] k[j])
}

/// Position of the last occurrence of `key`, or -1.
pub open spec fn key_pos(k: Seq<Seq<char>>, key: Seq<char>) -> int
    decreases k.len(),
{
    if k.len() == 0 {
        -1
    } else if k.last() == key {
        k.len() - 1
    } else {
        key_pos(k.drop_last(), key)
    }
}

/// Position of key `key` among the entries, if present.
pub open spec fn index_of_key(k: Seq<Seq<char>>, key: Seq<char>) -> Option<int> {
    if key_pos(k, key) >= 0 {
        Some(key_pos(k, key))
    } else {
        None
    }
}

proof fn lemma_key_pos_range(k: Seq<Seq<char>>, key: Seq<char>)
    ensures
        -1 <= key_pos(k, key) < k.len(),
        key_pos(k, key) >= 0 ==> k[key_pos(k, key)] == key,
        key_pos(k, key) < 0 ==> forall|j: int| 0 <= j < k.len() ==> k[j] != key,
    decreases k.len(),
{
    if k.len() > 0 && k.last() != key {
        lemma_key_pos_range(k.drop_last(), key);
        if key_pos(k, key) < 0 {
            assert forall|j: int| 0 <= j < k.len() implies k[j] != key by {
                if j < k.len() - 1 {
                    assert(k.drop_last()[j] == k[j]);
                }
            }
        }
    }
}

/// The value stored under `key` in a list of entries.
pub open spec fn lookup_in<V>(e: Seq<(String, V)>, key: Seq<char>) -> Option<V> {
    match index_of_key(keys_of(e), key) {
        Some(i) => Some(e[i].1),
        None => None,
    }
}

/// A string-keyed map whose entries are kept in ascending key order.
#[derive(Debug)]
pub struct StrMap<V> {
    entries: Vec<(String, V)>,
}

impl<V> StrMap<V> {
    /// The entries in ascending key order.
    pub closed spec fn entries_view(&self) -> Seq<(String, V)> {
        self.entries@
    }

    pub open spec fn key_seq(&self) -> Seq<Seq<char>> {
        keys_of(self.entries_view())
    }

    /// Keys ascend strictly, so each key occurs once.
    pub open spec fn wf(&self) -> bool {
        sorted_keys(self.key_seq())
    }

    /// The value stored under `key`.
    pub open spec fn lookup(&self, key: Seq<char>) -> Option<V> {
        lookup_in(self.entries_view(), key)
    }

    pub open spec fn has_key(&self, key: Seq<char>) -> bool {
        exists|i: int| 0 <= i < self.key_seq().len() && self.key_seq()[i] == key
    }

    pub open spec fn size(&self) -> nat {
        self.entries_view().len()
    }

    /// An empty map.
    pub fn new() -> (m: Self)
        ensures
            m.wf(),
            m.size() == 0,
            forall|k: Seq<char>| !m.has_key(k),
    {
        StrMap { entries: Vec::new() }
    }

    /// Number of entries.
    pub fn len(&self) -> (n: usize)
        ensures
            n == self.size(),
    {
        self.entries.len()
    }

    /// The entry at position `i` in key order.
    pub fn entry_at(&self, i: usize) -> (r: (&String, &V))
        requires
            i < self.size(),
        ensures
            *r.0 == self.entries_view()[i as int].0,
            *r.1 == self.entries_view()[i as int].1,
    {
        let e = &self.entries[i];
        (&e.0, &e.1)
    }

    /// Position at which `key` is or would be stored: every key before it is
    /// smaller; the key there, if any, is not smaller.
    fn search(&self, key: &Vec<char>) -> (r: (usize, bool))
        requires
            self.wf(),
        ensures
            r.0 <= self.size(),
            forall|j: int| 0 <= j < r.0 ==> key_lt(#[trigger] self.key_seq()[j], key@),
            r.1 ==> r.0 < self.size() && self.key_seq()[r.0 as int] == key@,
            !r.1 ==> (r.0 < self.size() ==> key_lt(key@, self.key_seq()[r.0 as int])),
            !r.1 ==> !self.has_key(key@),
    {
        let mut i: usize = 0;
        while i < self.entries.len()
            invariant
                self.wf(),
                i <= self.entries.len(),
                self.entries.len() == self.size(),
                forall|j: int| 0 <= j < i ==> key_lt(#[trigger] self.key_seq()[j], key@),
            decreases self.entries.len() - i,
        {
            let k = chars_of(self.entries[i].0.as_str());
            assert(k@ == self.key_seq()[i as int]);
            let o = crate::version::order_lex_exec(k.as_slice(), key.as_slice());
            match o {
                Order::Less => {},
                Order::Equal => {
                    proof {
                        lemma_order_lex_eq(k@, key@);
                    }
                    return (i, true);
                },
                Order::Greater => {
                    proof {
                        lemma_order_lex_flip(k@, key@);
                        assert forall|j: int|
                            0 <= j < self.key_seq().len() && self.key_seq()[j] == key@ implies false by {
                            if j < i {
                                lemma_key_lt_irrefl(key@);
                            } else if j > i {
                                lemma_key_lt_trans(key@, self.key_seq()[i as int], self.key_seq()[j]);
                                lemma_key_lt_irrefl(key@);
                            } else {
                                lemma_key_lt_irrefl(key@);
                            }
                        }
                    }
                    return (i, false);
                },
            }
            i += 1;
        }
        proof {
            assert forall|j: int|
                0 <= j < self.key_seq().len() && self.key_seq()[j] == key@ implies false by {
                lemma_key_lt_irrefl(key@);
            }
        }
        (i, false)
    }

    /// The value stored under `key`, if any.
    pub fn get(&self, key: &str) -> (r: Option<&V>)
        requires
            self.wf(),
        ensures
            match r {
                Some(v) => self.lookup(key@) == Some(*v),
                None => self.lookup(key@).is_none(),
            },
    {
        let k = chars_of(key);
        let (i, found) = self.search(&k);
        if found {
            proof {
                lemma_index_of_key(self.key_seq(), key@, i as int);
            }
            Some(&self.entries[i].1)
        } else {
            proof {
                lemma_key_pos_range(self.key_seq(), key@);
            }
            None
        }
    }

    /// Whether `key` is present.
    pub fn contains_key(&self, key: &str) -> (r: bool)
        requires
            self.wf(),
        ensures
            r == self.has_key(key@),
    {
        let k = chars_of(key);
        let (i, found) = self.search(&k);
        found
    }

    /// Stores `value` under `key`, replacing the previous value if any.
    pub fn insert(&mut self, key: String, value: V)
        requires
            old(self).wf(),
        ensures
            final(self).wf(),
            final(self).lookup(key@) == Some(value),
            forall|k: Seq<char>| k != key@ ==> #[trigger] final(self).lookup(k) == old(self).lookup(k),
            forall|k: Seq<char>| #[trigger] final(self).has_key(k) == (old(self).has_key(k) || k == key@),
            final(self).size() == (if old(self).has_key(key@) {
                old(self).size()
            } else {
                old(self).size() + 1
            }),
    {
        let k = chars_of(key.as_str());
        let (i, found) = self.search(&k);
        let ghost old_e = self.entries@;
        let ghost old_k = keys_of(old_e);
        if found {
            self.entries.set(i, (key, value));
            proof {
                let new_k = keys_of(self.entries@);
                assert(new_k =~= old_k);
                assert(old_k[i as int] == k@);
                assert(new_k[i as int] == k@);
                lemma_index_of_key(new_k, k@, i as int);
                assert(self.key_seq() == new_k);
                assert(old(self).key_seq() == old_k);
                assert forall|q: Seq<char>| q != key@ implies #[trigger] self.lookup(q) == old(self).lookup(q) by {
                    lemma_key_pos_range(old_k, q);
                    if key_pos(old_k, q) >= 0 {
                        assert(key_pos(old_k, q) != i);
                    }
                }
                assert forall|q: Seq<char>| #[trigger] self.has_key(q) == (old(self).has_key(q)
                    || q == key@) by {
                    lemma_key_pos_range(old_k, q);
                    lemma_key_pos_range(new_k, q);
                    if q == key@ {
                        assert(old_k[i as int] == q);
                        assert(new_k[i as int] == q);
                    }
                    if key_pos(new_k, q) >= 0 {
                        assert(new_k[key_pos(new_k, q)] == q);
                    }
                    if key_pos(old_k, q) >= 0 {
                        assert(old_k[key_pos(old_k, q)] == q);
                    }
                }
            }
        } else {
            self.entries.insert(i, (key, value));
            proof {
                let new_k = keys_of(self.entries@);
                assert(new_k =~= old_k.insert(i as int, k@));
                assert forall|a: int, b: int| 0 <= a < b < new_k.len() implies key_lt(
                    #[trigger] new_k[a],
                    #[trigger] new_k[b],
                ) by {
                    if b < i {
                    } else if b == i {
                    } else if a == i {
                        if b - 1 > i {
                            lemma_key_lt_trans(k@, old_k[i as int], old_k[b - 1]);
                        }
                    } else if a < i {
                    } else {
                    }
                }
                lookup_after_insert(old_e, self.entries@, i as int, k@);
                assert(self.lookup(key@) == Some(value));
                assert(self.key_seq() == new_k);
                assert(old(self).key_seq() == old_k);
                assert forall|q: Seq<char>| #[trigger] self.has_key(q) == (old(self).has_key(q)
                    || q == key@) by {
                    lemma_key_pos_range(old_k, q);
                    lemma_key_pos_range(new_k, q);
                    if q == key@ {
                        assert(new_k[i as int] == q);
                    }
                    if key_pos(new_k, q) >= 0 {
                        let a = key_pos(new_k, q);
                        assert(new_k[a] == q);
                        if a < i {
                            assert(old_k[a] == q);
                        } else if a > i {
                            assert(old_k[a - 1] == q);
                        }
                    }
                    if key_pos(old_k, q) >= 0 {
                        let b = key_pos(old_k, q);
                        assert(old_k[b] == q);
                        if b < i {
                            assert(new_k[b] == q);
                        } else {
                            assert(new_k[b + 1] == q);
                        }
                    }
                }
            }
        }
    }
}

proof fn lemma_index_of_key(k: Seq<Seq<char>>, key: Seq<char>, idx: int)
    requires
        sorted_keys(k),
        0 <= idx < k.len(),
        k[idx] == key,
    ensures
        index_of_key(k, key) == Some(idx),
    decreases k.len(),
{
    if idx < k.len() - 1 {
        assert(key_lt(k[idx], k[k.len() - 1]));
        if k.last() == key {
            lemma_key_lt_irrefl(key);
        }
        assert(sorted_keys(k.drop_last()));
        lemma_index_of_key(k.drop_last(), key, idx);
    }
}

proof fn unique_index<V>(e: Seq<(String, V)>, key: Seq<char>, i: int, j: int)
    requires
        sorted_keys(keys_of(e)),
        0 <= i < e.len(),
        0 <= j < e.len(),
        keys_of(e)[i] == key,
        keys_of(e)[j] == key,
    ensures
        i == j,
{
    if i < j {
        assert(key_lt(keys_of(e)[i], keys_of(e)[j]));
        lemma_key_lt_irrefl(key);
    } else if j < i {
        assert(key_lt(keys_of(e)[j], keys_of(e)[i]));
        lemma_key_lt_irrefl(key);
    }
}

proof fn lookup_after_insert<V>(
    old_e: Seq<(String, V)>,
    new_e: Seq<(String, V)>,
    i: int,
    key: Seq<char>,
)
    requires
        sorted_keys(keys_of(new_e)),
        0 <= i <= old_e.len(),
        new_e.len() == old_e.len() + 1,
        forall|j: int| 0 <= j < i ==> new_e[j] == old_e[j],
        forall|j: int| i < j < new_e.len() ==> new_e[j] == old_e[j - 1],
        new_e[i].0@ == key,
        forall|j: int| 0 <= j < old_e.len() ==> keys_of(old_e)[j] != key,
    ensures
        lookup_in(new_e, key) == Some(new_e[i].1),
        forall|k: Seq<char>| k != key ==> #[trigger] lookup_in(new_e, k) == lookup_in(old_e, k),
{
    assert(keys_of(new_e)[i] == key);
    lemma_index_of_key(keys_of(new_e), key, i);
    assert forall|k: Seq<char>| k != key implies #[trigger] lookup_in(new_e, k) == lookup_in(
        old_e,
        k,
    ) by {
        lemma_key_pos_range(keys_of(old_e), k);
        lemma_key_pos_range(keys_of(new_e), k);
        let b = key_pos(keys_of(old_e), k);
        if b >= 0 {
            let nb = if b < i {
                b
            } else {
                b + 1
            };
            assert(keys_of(new_e)[nb] == k);
            lemma_index_of_key(keys_of(new_e), k, nb);
        } else {
            let a = key_pos(keys_of(new_e), k);
            if a >= 0 {
                assert(a != i);
                let oa = if a < i {
                    a
                } else {
                    a - 1
                };
                assert(keys_of(old_e)[oa] == k);
            }
        }
    }
}

/// In a well-formed map, the key at a position finds the value at that
/// position.
pub proof fn lemma_lookup_at<V>(m: StrMap<V>, i: int)
    requires
        m.wf(),
        0 <= i < m.size(),
    ensures
        m.lookup(m.key_seq()[i]) == Some(m.entries_view()[i].1),
        m.has_key(m.key_seq()[i]),
{
    lemma_index_of_key(m.key_seq(), m.key_seq()[i], i);
}

/// A key is present exactly when it finds a value.
pub proof fn lemma_has_key_lookup<V>(m: StrMap<V>, k: Seq<char>)
    ensures
        m.has_key(k) <==> m.lookup(k) is Some,
{
    lemma_key_pos_range(m.key_seq(), k);
    let p = key_pos(m.key_seq(), k);
    if p >= 0 {
        assert(m.key_seq()[p] == k);
    }
}

/// A value that a key finds stands at a position of the map.
pub proof fn lemma_lookup_some<V>(m: StrMap<V>, k: Seq<char>)
    requires
        m.lookup(k) is Some,
    ensures
        0 <= key_pos(m.key_seq(), k) < m.size(),
        m.lookup(k) == Some(m.entries_view()[key_pos(m.key_seq(), k)].1),
{
    lemma_key_pos_range(m.key_seq(), k);
}

} // verus!

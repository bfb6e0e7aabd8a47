//! Portage package atoms and version ordering (PMS rules).
use vstd::prelude::*;
use vstd::string::StrSliceExecFns;

use crate::text::{
    char_code, all_digits, all_digits_exec, chars_of, has_prefix, is_ascii_digit, is_ascii_lower, is_digit,
    is_lower, lemma_take_push, parse_digits_u64, parse_u64_digits, split_chars_either,
    split_on_either, starts_with, sub_chars, vv,
};

verus! {

/// Three-way outcome of comparing two versions.
#[derive(Debug, Clone, Copy, PartialEq, Eq, Structural)]
pub enum Order {
    Less,
    Equal,
    Greater,
}

pub open spec fn flip(o: Order) -> Order {
    match o {
        Order::Less => Order::Greater,
        Order::Equal => Order::Equal,
        Order::Greater => Order::Less,
    }
}

pub open spec fn order_int(a: int, b: int) -> Order {
    if a < b {
        Order::Less
    } else if a > b {
        Order::Greater
    } else {
        Order::Equal
    }
}

/// Lexicographic order of character sequences by code point, which is the
/// byte order of their UTF-8 encodings that `str::cmp` uses.
pub open spec fn order_lex(a: Seq<char>, b: Seq<char>) -> Order
    decreases a.len(),
{
    if a.len() == 0 {
        if b.len() == 0 {
            Order::Equal
        } else {
            Order::Less
        }
    } else if b.len() == 0 {
        Order::Greater
    } else if (a[0] as int) != (b[0] as int) {
        order_int(a[0] as int, b[0] as int)
    } else {
        order_lex(a.drop_first(), b.drop_first())
    }
}

/// A PMS suffix `prefix` followed by nothing or by digits: its kind and
/// number (an unnumbered suffix counts as number 0).  A number too large for
/// `u64` makes it no suffix of this kind.
pub open spec fn suffix_kind(s: Seq<char>, prefix: Seq<char>, kind: int) -> Option<(int, int)> {
    if !starts_with(s, prefix) {
        None
    } else {
        let rest = s.skip(prefix.len() as int);
        if rest.len() == 0 {
            Some((kind, 0))
        } else {
            match parse_digits_u64(rest) {
                Some(n) => Some((kind, n as int)),
                None => None,
            }
        }
    }
}

/// The PMS suffix key of a version component:
/// `alpha` < `beta` < `pre` < `rc` < (no suffix) < `p`.
pub open spec fn suffix_key(s: Seq<char>) -> Option<(int, int)> {
    if suffix_kind(s, "alpha"@, -4).is_some() {
        suffix_kind(s, "alpha"@, -4)
    } else if suffix_kind(s, "beta"@, -3).is_some() {
        suffix_kind(s, "beta"@, -3)
    } else if suffix_kind(s, "pre"@, -2).is_some() {
        suffix_kind(s, "pre"@, -2)
    } else if suffix_kind(s, "rc"@, -1).is_some() {
        suffix_kind(s, "rc"@, -1)
    } else {
        suffix_kind(s, "p"@, 1)
    }
}

pub open spec fn order_pair(x: (int, int), y: (int, int)) -> Order {
    if x.0 != y.0 {
        order_int(x.0, y.0)
    } else {
        order_int(x.1, y.1)
    }
}

/// Number of leading decimal digits.
pub open spec fn digit_run(s: Seq<char>) -> nat
    decreases s.len(),
{
    if s.len() > 0 && is_ascii_digit(s[0]) {
        1 + digit_run(s.drop_first())
    } else {
        0
    }
}

/// The numeric prefix of a component (if it has one that fits `u64`).
pub open spec fn numeric_part(s: Seq<char>) -> Option<u64> {
    if digit_run(s) > 0 {
        parse_digits_u64(s.take(digit_run(s) as int))
    } else {
        None
    }
}

/// The lowercase ASCII letter right after the numeric prefix, if any.
pub open spec fn letter_part(s: Seq<char>) -> Option<char> {
    let k = digit_run(s) as int;
    if k < s.len() && is_ascii_lower(s[k]) {
        Some(s[k])
    } else {
        None
    }
}

/// Order of two version components; `Equal` means the comparison goes on
/// with the next components.
pub open spec fn part_order(pa: Seq<char>, pb: Seq<char>) -> Order {
    match (suffix_key(pa), suffix_key(pb)) {
        (Some(x), Some(y)) => order_pair(x, y),
        (Some(x), None) => order_int(x.0, 0),
        (None, Some(y)) => order_int(0, y.0),
        (None, None) => match (numeric_part(pa), numeric_part(pb)) {
            (Some(na), Some(nb)) => if na != nb {
                order_int(na as int, nb as int)
            } else {
                match (letter_part(pa), letter_part(pb)) {
                    (None, None) => Order::Equal,
                    (None, Some(_)) => Order::Less,
                    (Some(_), None) => Order::Greater,
                    (Some(ca), Some(cb)) => order_int(ca as int, cb as int),
                }
            },
            (Some(_), None) => Order::Greater,
            (None, Some(_)) => Order::Less,
            (None, None) => order_lex(pa, pb),
        },
    }
}

/// The version components (split on `.` and `_`); missing ones are empty.
pub open spec fn part_at(ps: Seq<Seq<char>>, i: int) -> Seq<char> {
    if 0 <= i < ps.len() {
        ps[i]
    } else {
        Seq::<char>::empty()
    }
}

pub open spec fn max_len(a: Seq<Seq<char>>, b: Seq<Seq<char>>) -> int {
    if a.len() >= b.len() {
        a.len() as int
    } else {
        b.len() as int
    }
}

/// Order of the component lists from position `i` on.
pub open spec fn parts_order(a: Seq<Seq<char>>, b: Seq<Seq<char>>, i: int) -> Order
    decreases max_len(a, b) - i,
{
    if i < 0 || i >= max_len(a, b) {
        Order::Equal
    } else {
        let o = part_order(part_at(a, i), part_at(b, i));
        if o != Order::Equal {
            o
        } else {
            parts_order(a, b, i + 1)
        }
    }
}

pub open spec fn is_rev_marker(v: Seq<char>, i: int) -> bool {
    0 <= i && i + 1 < v.len() && v[i] == '-' && v[i + 1] == 'r'
}

/// Position of the last `-r` in a version (`str::rfind("-r")`).
pub open spec fn last_rev_marker(v: Seq<char>) -> Option<int> {
    if exists|i: int| is_rev_marker(v, i) {
        Some(choose|i: int| is_rev_marker(v, i) && forall|j: int| i < j ==> !is_rev_marker(v, j))
    } else {
        None
    }
}

/// Split a version into base version and revision (`-rN`, given as `rN`);
/// only the last `-r` counts, and only when digits, and nothing else,
/// follow it.
pub open spec fn split_rev(v: Seq<char>) -> (Seq<char>, Option<Seq<char>>) {
    match last_rev_marker(v) {
        Some(pos) => {
            let after = v.skip(pos + 2);
            if after.len() > 0 && all_digits(after) {
                (v.take(pos), Some(v.skip(pos + 1)))
            } else {
                (v, None)
            }
        },
        None => (v, None),
    }
}

/// Numeric revision; an absent or unparsable revision counts as 0.
pub open spec fn rev_num(r: Option<Seq<char>>) -> int {
    match r {
        Some(r) => if r.len() > 0 && r[0] == 'r' {
            match parse_digits_u64(r.drop_first()) {
                Some(n) => n as int,
                None => 0,
            }
        } else {
            0
        },
        None => 0,
    }
}

/// PMS order of two version strings.
pub open spec fn version_order(a: Seq<char>, b: Seq<char>) -> Order {
    let (ab, ar) = split_rev(a);
    let (bb, br) = split_rev(b);
    let o = parts_order(split_on_either(ab, '.', '_'), split_on_either(bb, '.', '_'), 0);
    if o != Order::Equal {
        o
    } else {
        order_int(rev_num(ar), rev_num(br))
    }
}

// ───────────────────────── laws ─────────────────────────

proof fn lemma_order_lex_antisym(a: Seq<char>, b: Seq<char>)
    ensures
        order_lex(a, b) == flip(order_lex(b, a)),
    decreases a.len(),
{
    if a.len() > 0 && b.len() > 0 && (a[0] as int) == (b[0] as int) {
        lemma_order_lex_antisym(a.drop_first(), b.drop_first());
    }
}

proof fn lemma_order_lex_refl(a: Seq<char>)
    ensures
        order_lex(a, a) == Order::Equal,
    decreases a.len(),
{
    if a.len() > 0 {
        lemma_order_lex_refl(a.drop_first());
    }
}

proof fn lemma_part_order_antisym(pa: Seq<char>, pb: Seq<char>)
    ensures
        part_order(pa, pb) == flip(part_order(pb, pa)),
{
    lemma_order_lex_antisym(pa, pb);
}

proof fn lemma_part_order_refl(pa: Seq<char>)
    ensures
        part_order(pa, pa) == Order::Equal,
{
    lemma_order_lex_refl(pa);
}

proof fn lemma_parts_order_antisym(a: Seq<Seq<char>>, b: Seq<Seq<char>>, i: int)
    ensures
        parts_order(a, b, i) == flip(parts_order(b, a, i)),
    decreases max_len(a, b) - i,
{
    if 0 <= i < max_len(a, b) {
        lemma_part_order_antisym(part_at(a, i), part_at(b, i));
        lemma_parts_order_antisym(a, b, i + 1);
    }
}

proof fn lemma_parts_order_refl(a: Seq<Seq<char>>, i: int)
    ensures
        parts_order(a, a, i) == Order::Equal,
    decreases max_len(a, a) - i,
{
    if 0 <= i < max_len(a, a) {
        lemma_part_order_refl(part_at(a, i));
        lemma_parts_order_refl(a, i + 1);
    }
}

/// Comparing two versions the other way round gives the opposite order.
pub proof fn law_version_order_antisymmetric(a: Seq<char>, b: Seq<char>)
    ensures
        version_order(a, b) == flip(version_order(b, a)),
{
    let (ab, ar) = split_rev(a);
    let (bb, br) = split_rev(b);
    lemma_parts_order_antisym(split_on_either(ab, '.', '_'), split_on_either(bb, '.', '_'), 0);
}

/// Every version is equal to itself.
pub proof fn law_version_order_reflexive(a: Seq<char>)
    ensures
        version_order(a, a) == Order::Equal,
{
    let (ab, ar) = split_rev(a);
    lemma_parts_order_refl(split_on_either(ab, '.', '_'), 0);
}

/// A component as a sortable key: the suffix kind (0 for no suffix), then
/// numeric-before-text, the number, whether a letter follows it, the
/// letter, and, for a component that is neither, its text.
pub open spec fn part_key(p: Seq<char>) -> (int, int, int, int, int, Seq<char>) {
    match suffix_key(p) {
        Some((k, n)) => (k, 0, n, 0, 0, Seq::empty()),
        None => match numeric_part(p) {
            Some(na) => match letter_part(p) {
                Some(c) => (0, 1, na as int, 1, c as int, Seq::empty()),
                None => (0, 1, na as int, 0, 0, Seq::empty()),
            },
            None => (0, 0, 0, 0, 0, p),
        },
    }
}

/// Lexicographic order of component keys.
pub open spec fn key_order(
    x: (int, int, int, int, int, Seq<char>),
    y: (int, int, int, int, int, Seq<char>),
) -> Order {
    if x.0 != y.0 {
        order_int(x.0, y.0)
    } else if x.1 != y.1 {
        order_int(x.1, y.1)
    } else if x.2 != y.2 {
        order_int(x.2, y.2)
    } else if x.3 != y.3 {
        order_int(x.3, y.3)
    } else if x.4 != y.4 {
        order_int(x.4, y.4)
    } else {
        order_lex(x.5, y.5)
    }
}

proof fn lemma_suffix_kind_nonzero(p: Seq<char>)
    ensures
        suffix_key(p) matches Some(x) ==> x.0 != 0,
{
}

proof fn lemma_part_key(pa: Seq<char>, pb: Seq<char>)
    ensures
        part_order(pa, pb) == key_order(part_key(pa), part_key(pb)),
{
    lemma_suffix_kind_nonzero(pa);
    lemma_suffix_kind_nonzero(pb);
    assert(order_lex(Seq::<char>::empty(), Seq::<char>::empty()) == Order::Equal);
    match (suffix_key(pa), suffix_key(pb)) {
        (Some(x), Some(y)) => {},
        (Some(x), None) => {},
        (None, Some(y)) => {},
        (None, None) => {
            match (numeric_part(pa), numeric_part(pb)) {
                (Some(na), Some(nb)) => {
                    match (letter_part(pa), letter_part(pb)) {
                        (Some(ca), Some(cb)) => {},
                        (Some(ca), None) => {},
                        (None, Some(cb)) => {},
                        (None, None) => {},
                    }
                },
                _ => {},
            }
        },
    }
}

/// The order of two orders in a chain: whether `o1` then `o2` allows the
/// result `o`.
pub open spec fn chains(o1: Order, o2: Order, o: Order) -> bool {
    &&& o1 == Order::Equal ==> o == o2
    &&& o2 == Order::Equal ==> o == o1
    &&& o1 == o2 ==> o == o1
}

proof fn lemma_order_int_chain(a: int, b: int, c: int)
    ensures
        chains(order_int(a, b), order_int(b, c), order_int(a, c)),
{
}

proof fn lemma_order_lex_chain(a: Seq<char>, b: Seq<char>, c: Seq<char>)
    ensures
        chains(order_lex(a, b), order_lex(b, c), order_lex(a, c)),
{
    crate::strmap::lemma_order_lex_eq(a, b);
    crate::strmap::lemma_order_lex_eq(b, c);
    crate::strmap::lemma_order_lex_eq(a, c);
    lemma_order_lex_antisym(a, b);
    lemma_order_lex_antisym(b, c);
    lemma_order_lex_antisym(a, c);
    if order_lex(a, b) == Order::Less && order_lex(b, c) == Order::Less {
        crate::strmap::lemma_key_lt_trans(a, b, c);
    }
    if order_lex(a, b) == Order::Greater && order_lex(b, c) == Order::Greater {
        crate::strmap::lemma_key_lt_trans(c, b, a);
    }
}

proof fn lemma_key_order_chain(
    x: (int, int, int, int, int, Seq<char>),
    y: (int, int, int, int, int, Seq<char>),
    z: (int, int, int, int, int, Seq<char>),
)
    ensures
        chains(key_order(x, y), key_order(y, z), key_order(x, z)),
        key_order(x, y) == Order::Equal ==> x == y,
{
    lemma_order_int_chain(x.0, y.0, z.0);
    lemma_order_int_chain(x.1, y.1, z.1);
    lemma_order_int_chain(x.2, y.2, z.2);
    lemma_order_int_chain(x.3, y.3, z.3);
    lemma_order_int_chain(x.4, y.4, z.4);
    lemma_order_lex_chain(x.5, y.5, z.5);
    crate::strmap::lemma_order_lex_eq(x.5, y.5);
}

proof fn lemma_part_order_chain(a: Seq<char>, b: Seq<char>, c: Seq<char>)
    ensures
        chains(part_order(a, b), part_order(b, c), part_order(a, c)),
{
    lemma_part_key(a, b);
    lemma_part_key(b, c);
    lemma_part_key(a, c);
    lemma_key_order_chain(part_key(a), part_key(b), part_key(c));
}

/// The order of the components from `i` up to (not including) `n`.
pub open spec fn parts_order_upto(a: Seq<Seq<char>>, b: Seq<Seq<char>>, i: int, n: int) -> Order
    decreases n - i,
{
    if i < 0 || i >= n {
        Order::Equal
    } else {
        let o = part_order(part_at(a, i), part_at(b, i));
        if o != Order::Equal {
            o
        } else {
            parts_order_upto(a, b, i + 1, n)
        }
    }
}

proof fn lemma_parts_order_upto(a: Seq<Seq<char>>, b: Seq<Seq<char>>, i: int, n: int)
    requires
        0 <= i,
        n >= max_len(a, b),
    ensures
        parts_order(a, b, i) == parts_order_upto(a, b, i, n),
    decreases n - i,
{
    if i < n {
        if i >= max_len(a, b) {
            assert(part_at(a, i) == Seq::<char>::empty());
            assert(part_at(b, i) == Seq::<char>::empty());
            lemma_part_order_refl(Seq::<char>::empty());
        }
        lemma_parts_order_upto(a, b, i + 1, n);
    }
}

proof fn lemma_parts_upto_chain(a: Seq<Seq<char>>, b: Seq<Seq<char>>, c: Seq<Seq<char>>, i: int, n: int)
    requires
        0 <= i,
    ensures
        chains(
            parts_order_upto(a, b, i, n),
            parts_order_upto(b, c, i, n),
            parts_order_upto(a, c, i, n),
        ),
    decreases n - i,
{
    if i < n {
        lemma_part_order_chain(part_at(a, i), part_at(b, i), part_at(c, i));
        lemma_parts_upto_chain(a, b, c, i + 1, n);
    }
}

/// Version order is transitive, with `Equal` as an equivalence: a version
/// equal to another compares as it does, and two steps the same way give
/// that order.
pub proof fn law_version_order_transitive(a: Seq<char>, b: Seq<char>, c: Seq<char>)
    ensures
        version_order(a, b) == Order::Equal ==> version_order(a, c) == version_order(b, c),
        version_order(b, c) == Order::Equal ==> version_order(a, c) == version_order(a, b),
        version_order(a, b) == version_order(b, c) ==> version_order(a, c) == version_order(a, b),
{
    let (ab, ar) = split_rev(a);
    let (bb, br) = split_rev(b);
    let (cb, cr) = split_rev(c);
    let pa = split_on_either(ab, '.', '_');
    let pb = split_on_either(bb, '.', '_');
    let pc = split_on_either(cb, '.', '_');
    let n = max_len(pa, pb) + max_len(pb, pc) + max_len(pa, pc);
    lemma_parts_order_upto(pa, pb, 0, n);
    lemma_parts_order_upto(pb, pc, 0, n);
    lemma_parts_order_upto(pa, pc, 0, n);
    lemma_parts_upto_chain(pa, pb, pc, 0, n);
    lemma_order_int_chain(rev_num(ar), rev_num(br), rev_num(cr));
}

proof fn lemma_digit_char(d: int)
    requires
        0 <= d < 10,
    ensures
        is_ascii_digit(crate::text::digit_char(d)),
        crate::text::digit_value(crate::text::digit_char(d)) == d,
{
    let x = (('0' as u32) + d) as u32;
    assert(48 <= x < 58);
    assert((x as char) as u32 == x);
}

proof fn lemma_decimal_reads_back(n: nat)
    ensures
        crate::text::decimal(n).len() > 0,
        all_digits(crate::text::decimal(n)),
        crate::text::digits_value(crate::text::decimal(n)) == n,
        !crate::text::decimal(n).contains('-'),
    decreases n,
{
    let s = crate::text::decimal(n);
    if n < 10 {
        lemma_digit_char(n as int);
        assert(s.drop_last() =~= Seq::<char>::empty());
        assert(crate::text::digits_value(s.drop_last()) == 0);
        assert(crate::text::digit_value(s.last()) == n);
        assert(crate::text::digits_value(s) == n);
        if s.contains('-') {
            assert(s[0] == '-');
        }
    } else {
        lemma_decimal_reads_back(n / 10);
        lemma_digit_char((n % 10) as int);
        let d = crate::text::decimal(n / 10);
        assert(s.drop_last() =~= d);
        assert(s.last() == crate::text::digit_char((n % 10) as int));
        assert(crate::text::digits_value(s) == (n / 10) * 10 + n % 10);
        assert((n / 10) * 10 + n % 10 == n);
        assert(all_digits(s)) by {
            assert forall|i: int| 0 <= i < s.len() implies is_ascii_digit(s[i]) by {
                if i < d.len() {
                    assert(s[i] == d[i]);
                }
            }
        }
        if s.contains('-') {
            let i = choose|i: int| 0 <= i < s.len() && s[i] == '-';
            assert(is_ascii_digit(s[i]));
        }
    }
}

/// A version with a revision `-r<m>` appended: its base is `v` and its
/// revision number is `m`.
proof fn lemma_split_rev_appended(v: Seq<char>, m: u64)
    ensures
        split_rev(v + "-r"@ + crate::text::decimal(m as nat)).0 == v,
        rev_num(split_rev(v + "-r"@ + crate::text::decimal(m as nat)).1) == m as int,
{
    reveal_strlit("-r");
    let d = crate::text::decimal(m as nat);
    lemma_decimal_reads_back(m as nat);
    let a = v + "-r"@ + d;
    let p = v.len() as int;
    assert(a[p] == '-' && a[p + 1] == 'r');
    assert(is_rev_marker(a, p));
    assert forall|j: int| p < j implies !is_rev_marker(a, j) by {
        if is_rev_marker(a, j) {
            if j == p + 1 {
                assert(a[j] == 'r');
            } else {
                assert(a[j] == d[j - p - 2]);
                assert(d.contains('-'));
            }
        }
    }
    let c = choose|i: int| is_rev_marker(a, i) && forall|j: int| i < j ==> !is_rev_marker(a, j);
    if c < p {
        assert(!is_rev_marker(a, p));
    }
    if p < c {
    }
    assert(last_rev_marker(a) == Some(p));
    assert(a.skip(p + 2) =~= d);
    assert(a.take(p) =~= v);
    let r = a.skip(p + 1);
    assert(r[0] == 'r');
    assert(r.drop_first() =~= d);
}

/// Two versions with the same base compare as their revision numbers do,
/// by the whole decimal number after `-r`.
pub proof fn law_revisions_compare_numerically(v: Seq<char>, m: u64, n: u64)
    ensures
        version_order(
            v + "-r"@ + crate::text::decimal(m as nat),
            v + "-r"@ + crate::text::decimal(n as nat),
        ) == order_int(m as int, n as int),
{
    lemma_split_rev_appended(v, m);
    lemma_split_rev_appended(v, n);
    lemma_parts_order_refl(split_on_either(v, '.', '_'), 0);
}

/// No character of `t` separates components or starts a revision.
pub open spec fn plain_piece(t: Seq<char>) -> bool {
    forall|k: int| 0 <= k < t.len() ==> #[trigger] t[k] != '.' && t[k] != '_' && t[k] != '-'
}

proof fn lemma_split_appended(v: Seq<char>, sep: char, t: Seq<char>)
    requires
        sep == '.' || sep == '_',
        plain_piece(t),
    ensures
        split_on_either(v + seq![sep] + t, '.', '_') == split_on_either(v, '.', '_').push(t),
    decreases t.len(),
{
    let a = v + seq![sep] + t;
    let pv = split_on_either(v, '.', '_');
    if t.len() == 0 {
        assert(a.len() > 0);
        assert(a.drop_last() =~= v);
        assert(a.last() == sep);
        assert(t =~= Seq::<char>::empty());
        assert(split_on_either(a, '.', '_') == split_on_either(a.drop_last(), '.', '_').push(
            Seq::<char>::empty(),
        ));
    } else {
        let t2 = t.drop_last();
        let c = t.last();
        assert(plain_piece(t2)) by {
            assert forall|k: int| 0 <= k < t2.len() implies #[trigger] t2[k] != '.' && t2[k] != '_'
                && t2[k] != '-' by {
                assert(t2[k] == t[k]);
            }
        }
        lemma_split_appended(v, sep, t2);
        assert(a.drop_last() =~= v + seq![sep] + t2);
        assert(a.last() == c);
        assert(c != '.' && c != '_');
        let p = split_on_either(a.drop_last(), '.', '_');
        assert(p == pv.push(t2));
        assert(split_on_either(a, '.', '_') == p.update(p.len() - 1, p.last().push(c)));
        assert(p.last() == t2);
        assert(t2.push(c) =~= t);
        assert(p.update(p.len() - 1, t) =~= pv.push(t));
    }
}

proof fn lemma_no_revision_after(a: Seq<char>, q: int, pos: int)
    requires
        0 <= q < a.len(),
        a[q] == '.' || a[q] == '_',
        forall|k: int| q < k < a.len() ==> #[trigger] a[k] != '-',
        is_rev_marker(a, pos),
    ensures
        !all_digits(a.skip(pos + 2)),
{
    if pos > q {
        assert(a[pos] != '-');
    }
    assert(pos != q);
    assert(pos + 1 != q);
    let after = a.skip(pos + 2);
    assert(after[q - pos - 2] == a[q]);
}

proof fn lemma_split_rev_none_at(a: Seq<char>, q: int)
    requires
        0 <= q < a.len(),
        a[q] == '.' || a[q] == '_',
        forall|k: int| q < k < a.len() ==> #[trigger] a[k] != '-',
    ensures
        split_rev(a) == (a, Option::<Seq<char>>::None),
{
    if exists|i: int| is_rev_marker(a, i) {
        let i0 = choose|i: int| is_rev_marker(a, i);
        lemma_last_marker_exists(a, i0);
        let pos = choose|i: int| is_rev_marker(a, i) && forall|j: int| i < j ==> !is_rev_marker(a, j);
        assert(last_rev_marker(a) == Some(pos));
        lemma_no_revision_after(a, q, pos);
    }
}

proof fn lemma_last_marker_exists(a: Seq<char>, i: int)
    requires
        is_rev_marker(a, i),
    ensures
        exists|k: int| is_rev_marker(a, k) && forall|j: int| k < j ==> !is_rev_marker(a, j),
    decreases a.len() - i,
{
    if exists|j: int| i < j && is_rev_marker(a, j) {
        let j = choose|j: int| i < j && is_rev_marker(a, j);
        lemma_last_marker_exists(a, j);
    } else {
        assert(is_rev_marker(a, i) && forall|j: int| i < j ==> !is_rev_marker(a, j));
    }
}

proof fn lemma_split_rev_none(v: Seq<char>, sep: char, t: Seq<char>)
    requires
        sep == '.' || sep == '_',
        plain_piece(t),
    ensures
        split_rev(v + seq![sep] + t) == (v + seq![sep] + t, Option::<Seq<char>>::None),
{
    let a = v + seq![sep] + t;
    let q = v.len() as int;
    assert(a[q] == sep);
    assert forall|k: int| q < k < a.len() implies #[trigger] a[k] != '-' by {
        assert(a[k] == t[k - q - 1]);
    }
    lemma_split_rev_none_at(a, q);
}

proof fn lemma_parts_shared_prefix(ps: Seq<Seq<char>>, x: Seq<char>, y: Seq<char>, i: int)
    requires
        0 <= i <= ps.len(),
    ensures
        parts_order(ps.push(x), ps.push(y), i) == part_order(x, y),
    decreases ps.len() - i,
{
    let a = ps.push(x);
    let b = ps.push(y);
    assert(max_len(a, b) == ps.len() + 1);
    if i < ps.len() {
        assert(part_at(a, i) == ps[i] && part_at(b, i) == ps[i]);
        lemma_part_order_refl(ps[i]);
        lemma_parts_shared_prefix(ps, x, y, i + 1);
        assert(parts_order(a, b, i) == parts_order(a, b, i + 1));
    } else {
        assert(part_at(a, i) == x && part_at(b, i) == y);
        assert(parts_order(a, b, i + 1) == Order::Equal);
    }
}

/// Two versions that differ only in a last component, after the same
/// separator, compare as those components do.
proof fn lemma_last_component(v: Seq<char>, sep: char, x: Seq<char>, y: Seq<char>)
    requires
        sep == '.' || sep == '_',
        plain_piece(x),
        plain_piece(y),
    ensures
        version_order(v + seq![sep] + x, v + seq![sep] + y) == part_order(x, y),
{
    lemma_split_rev_none(v, sep, x);
    lemma_split_rev_none(v, sep, y);
    lemma_split_appended(v, sep, x);
    lemma_split_appended(v, sep, y);
    lemma_parts_shared_prefix(split_on_either(v, '.', '_'), x, y, 0);
}

proof fn lemma_digit_run_prefix(s: Seq<char>, t: Seq<char>)
    requires
        all_digits(s),
    ensures
        digit_run(s + t) == s.len() + digit_run(t),
    decreases s.len(),
{
    if s.len() > 0 {
        assert((s + t).drop_first() =~= s.drop_first() + t);
        lemma_digit_run_prefix(s.drop_first(), t);
    } else {
        assert(s + t =~= t);
    }
}

proof fn lemma_no_suffix_on_digit(x: Seq<char>)
    requires
        x.len() > 0,
        is_ascii_digit(x[0]),
    ensures
        suffix_key(x) is None,
{
    reveal_strlit("alpha");
    reveal_strlit("beta");
    reveal_strlit("pre");
    reveal_strlit("rc");
    reveal_strlit("p");
    assert(!starts_with(x, "alpha"@)) by {
        if starts_with(x, "alpha"@) {
            assert(x.take(5)[0] == x[0]);
        }
    }
    assert(!starts_with(x, "beta"@)) by {
        if starts_with(x, "beta"@) {
            assert(x.take(4)[0] == x[0]);
        }
    }
    assert(!starts_with(x, "pre"@)) by {
        if starts_with(x, "pre"@) {
            assert(x.take(3)[0] == x[0]);
        }
    }
    assert(!starts_with(x, "rc"@)) by {
        if starts_with(x, "rc"@) {
            assert(x.take(2)[0] == x[0]);
        }
    }
    assert(!starts_with(x, "p"@)) by {
        if starts_with(x, "p"@) {
            assert(x.take(1)[0] == x[0]);
        }
    }
}

proof fn lemma_decimal_plain(m: nat)
    ensures
        plain_piece(crate::text::decimal(m)),
        crate::text::decimal(m).len() > 0,
        all_digits(crate::text::decimal(m)),
        crate::text::digits_value(crate::text::decimal(m)) == m,
{
    lemma_decimal_reads_back(m);
    let d = crate::text::decimal(m);
    assert forall|k: int| 0 <= k < d.len() implies #[trigger] d[k] != '.' && d[k] != '_' && d[k] != '-' by {
        assert(is_ascii_digit(d[k]));
    }
}

/// Numeric components compare as numbers, not as text: `1.9` < `1.10`.
pub proof fn law_numeric_components_compare_as_numbers(v: Seq<char>, m: u64, n: u64)
    ensures
        version_order(
            v + "."@ + crate::text::decimal(m as nat),
            v + "."@ + crate::text::decimal(n as nat),
        ) == order_int(m as int, n as int),
{
    reveal_strlit(".");
    let dm = crate::text::decimal(m as nat);
    let dn = crate::text::decimal(n as nat);
    lemma_decimal_plain(m as nat);
    lemma_decimal_plain(n as nat);
    assert("."@ =~= seq!['.']);
    lemma_last_component(v, '.', dm, dn);
    lemma_no_suffix_on_digit(dm);
    lemma_no_suffix_on_digit(dn);
    lemma_digit_run_prefix(dm, Seq::<char>::empty());
    lemma_digit_run_prefix(dn, Seq::<char>::empty());
    assert(dm + Seq::<char>::empty() =~= dm);
    assert(dn + Seq::<char>::empty() =~= dn);
    assert(dm.take(dm.len() as int) =~= dm);
    assert(dn.take(dn.len() as int) =~= dn);
}

/// A trailing lowercase letter counts after the number: `1.1.1` < `1.1.1a`
/// < `1.1.1z`.
pub proof fn law_trailing_letters_compare(v: Seq<char>, m: u64, c1: char, c2: char)
    requires
        is_ascii_lower(c1),
        is_ascii_lower(c2),
    ensures
        ({
            let d = crate::text::decimal(m as nat);
            &&& version_order(v + "."@ + d.push(c1), v + "."@ + d.push(c2)) == order_int(
                c1 as int,
                c2 as int,
            )
            &&& version_order(v + "."@ + d, v + "."@ + d.push(c1)) == Order::Less
        }),
{
    reveal_strlit(".");
    assert("."@ =~= seq!['.']);
    let d = crate::text::decimal(m as nat);
    lemma_decimal_plain(m as nat);
    lemma_letters_part_order(d, c1, c2);
    lemma_lettered_component(d, c1);
    lemma_lettered_component(d, c2);
    lemma_last_component(v, '.', d.push(c1), d.push(c2));
    lemma_last_component(v, '.', d, d.push(c1));
}

proof fn lemma_letters_part_order(d: Seq<char>, c1: char, c2: char)
    requires
        is_ascii_lower(c1),
        is_ascii_lower(c2),
        plain_piece(d),
        d.len() > 0,
        all_digits(d),
        crate::text::digits_value(d) <= u64::MAX,
    ensures
        part_order(d.push(c1), d.push(c2)) == order_int(c1 as int, c2 as int),
        part_order(d, d.push(c1)) == Order::Less,
{
    lemma_lettered_component(d, c1);
    lemma_lettered_component(d, c2);
    lemma_no_suffix_on_digit(d);
    lemma_digit_run_prefix(d, Seq::<char>::empty());
    assert(d + Seq::<char>::empty() =~= d);
    assert(d.take(d.len() as int) =~= d);
    assert(numeric_part(d) == Some(crate::text::digits_value(d) as u64));
    assert(letter_part(d) is None);
}

proof fn lemma_lettered_component(d: Seq<char>, c: char)
    requires
        is_ascii_lower(c),
        plain_piece(d),
        d.len() > 0,
        all_digits(d),
        crate::text::digits_value(d) <= u64::MAX,
    ensures
        plain_piece(d.push(c)),
        suffix_key(d.push(c)) is None,
        numeric_part(d.push(c)) == Some(crate::text::digits_value(d) as u64),
        letter_part(d.push(c)) == Some(c),
{
    let x = d.push(c);
    assert(x =~= d + seq![c]);
    assert forall|k: int| 0 <= k < x.len() implies #[trigger] x[k] != '.' && x[k] != '_' && x[k] != '-' by {
        if k < d.len() {
            assert(x[k] == d[k]);
        }
    }
    assert(x[0] == d[0]);
    lemma_no_suffix_on_digit(x);
    lemma_digit_run_prefix(d, seq![c]);
    assert(!is_ascii_digit(c));
    assert(seq![c].drop_first() =~= Seq::<char>::empty());
    assert(digit_run(seq![c]) == 0);
    assert(x.take(d.len() as int) =~= d);
}

/// The PMS suffix names, in their order.
pub open spec fn suffix_rank(s: Seq<char>) -> int {
    if s == "alpha"@ {
        -4
    } else if s == "beta"@ {
        -3
    } else if s == "pre"@ {
        -2
    } else if s == "rc"@ {
        -1
    } else {
        1
    }
}

pub open spec fn is_suffix_name(s: Seq<char>) -> bool {
    s == "alpha"@ || s == "beta"@ || s == "pre"@ || s == "rc"@ || s == "p"@
}

proof fn lemma_not_prefix(x: Seq<char>, p: Seq<char>, k: int)
    requires
        0 <= k < p.len(),
        k >= x.len() || x[k] != p[k],
    ensures
        !starts_with(x, p),
{
    if starts_with(x, p) {
        assert(x.take(p.len() as int)[k] == x[k]);
    }
}

proof fn lemma_kind_match(x: Seq<char>, s: Seq<char>, d: Seq<char>, kind: int)
    requires
        x == s + d,
        d.len() == 0 || (all_digits(d) && crate::text::digits_value(d) <= u64::MAX),
    ensures
        suffix_kind(x, s, kind) == Some(
            (kind, if d.len() == 0 { 0int } else { crate::text::digits_value(d) as int }),
        ),
{
    assert(x.take(s.len() as int) =~= s);
    assert(x.skip(s.len() as int) =~= d);
}

proof fn lemma_suffix_key_of(s: Seq<char>, d: Seq<char>)
    requires
        is_suffix_name(s),
        d.len() == 0 || (all_digits(d) && crate::text::digits_value(d) <= u64::MAX),
    ensures
        suffix_key(s + d) == Some(
            (suffix_rank(s), if d.len() == 0 { 0int } else { crate::text::digits_value(d) as int }),
        ),
{
    reveal_strlit("alpha");
    reveal_strlit("beta");
    reveal_strlit("pre");
    reveal_strlit("rc");
    reveal_strlit("p");
    let x = s + d;
    let n: int = if d.len() == 0 { 0int } else { crate::text::digits_value(d) as int };
    assert(x[0] == s[0]);
    if s == "alpha"@ {
        lemma_kind_match(x, s, d, -4);
    } else if s == "beta"@ {
        assert(s != "alpha"@);
        lemma_not_prefix(x, "alpha"@, 0);
        lemma_kind_match(x, s, d, -3);
    } else if s == "pre"@ {
        assert(s != "alpha"@ && s != "beta"@);
        lemma_not_prefix(x, "alpha"@, 0);
        lemma_not_prefix(x, "beta"@, 0);
        lemma_kind_match(x, s, d, -2);
    } else if s == "rc"@ {
        assert(s != "alpha"@ && s != "beta"@ && s != "pre"@);
        lemma_not_prefix(x, "alpha"@, 0);
        lemma_not_prefix(x, "beta"@, 0);
        lemma_not_prefix(x, "pre"@, 0);
        lemma_kind_match(x, s, d, -1);
    } else {
        assert(s == "p"@);
        assert(s != "alpha"@ && s != "beta"@ && s != "pre"@ && s != "rc"@);
        lemma_not_prefix(x, "alpha"@, 0);
        lemma_not_prefix(x, "beta"@, 0);
        if d.len() > 0 {
            assert(x[1] == d[0]);
            assert(is_ascii_digit(d[0]));
        }
        lemma_not_prefix(x, "pre"@, 1);
        lemma_not_prefix(x, "rc"@, 0);
        lemma_kind_match(x, s, d, 1);
    }
}

/// The digits after a suffix name: none, or a number.
pub open spec fn suffix_number_text(m: Option<u64>) -> Seq<char> {
    match m {
        Some(k) => crate::text::decimal(k as nat),
        None => Seq::<char>::empty(),
    }
}

/// The number of a suffix; an unnumbered one counts as 0.
pub open spec fn suffix_number(m: Option<u64>) -> int {
    match m {
        Some(k) => k as int,
        None => 0,
    }
}

proof fn lemma_suffix_piece(s: Seq<char>, m: Option<u64>)
    requires
        is_suffix_name(s),
    ensures
        plain_piece(s + suffix_number_text(m)),
        suffix_key(s + suffix_number_text(m)) == Some((suffix_rank(s), suffix_number(m))),
{
    reveal_strlit("alpha");
    reveal_strlit("beta");
    reveal_strlit("pre");
    reveal_strlit("rc");
    reveal_strlit("p");
    let d = suffix_number_text(m);
    match m {
        Some(k) => {
            lemma_decimal_plain(k as nat);
        },
        None => {},
    }
    lemma_suffix_key_of(s, d);
    let x = s + d;
    assert forall|k: int| 0 <= k < x.len() implies #[trigger] x[k] != '.' && x[k] != '_' && x[k] != '-' by {
        if k < s.len() {
            assert(x[k] == s[k]);
            assert(is_ascii_lower(s[k]));
        } else {
            assert(x[k] == d[k - s.len()]);
        }
    }
}

/// Suffix components order by kind, `_alpha` < `_beta` < `_pre` < `_rc`
/// < `_p`, and within a kind by number, an unnumbered suffix counting as 0.
#[verifier::spinoff_prover]
pub proof fn law_suffixes_compare(
    v: Seq<char>,
    s1: Seq<char>,
    m1: Option<u64>,
    s2: Seq<char>,
    m2: Option<u64>,
)
    requires
        is_suffix_name(s1),
        is_suffix_name(s2),
    ensures
        version_order(
            v + seq!['_'] + (s1 + suffix_number_text(m1)),
            v + seq!['_'] + (s2 + suffix_number_text(m2)),
        ) == if suffix_rank(s1) != suffix_rank(s2) {
            order_int(suffix_rank(s1), suffix_rank(s2))
        } else {
            order_int(suffix_number(m1), suffix_number(m2))
        },
{
    let x = s1 + suffix_number_text(m1);
    let y = s2 + suffix_number_text(m2);
    lemma_suffix_piece(s1, m1);
    lemma_suffix_piece(s2, m2);
    lemma_suffix_versions(v, x, y, (suffix_rank(s1), suffix_number(m1)), (suffix_rank(s2), suffix_number(m2)));
}

proof fn lemma_suffix_versions(v: Seq<char>, x: Seq<char>, y: Seq<char>, kx: (int, int), ky: (int, int))
    requires
        plain_piece(x),
        plain_piece(y),
        suffix_key(x) == Some(kx),
        suffix_key(y) == Some(ky),
    ensures
        version_order(v + seq!['_'] + x, v + seq!['_'] + y) == if kx.0 != ky.0 {
            order_int(kx.0, ky.0)
        } else {
            order_int(kx.1, ky.1)
        },
{
    lemma_last_component(v, '_', x, y);
    lemma_suffix_parts_order(x, y, kx, ky);
}

proof fn lemma_suffix_parts_order(x: Seq<char>, y: Seq<char>, kx: (int, int), ky: (int, int))
    requires
        suffix_key(x) == Some(kx),
        suffix_key(y) == Some(ky),
    ensures
        part_order(x, y) == if kx.0 != ky.0 {
            order_int(kx.0, ky.0)
        } else {
            order_int(kx.1, ky.1)
        },
{
}

proof fn lemma_parts_one_more(ps: Seq<Seq<char>>, x: Seq<char>, i: int)
    requires
        0 <= i <= ps.len(),
    ensures
        parts_order(ps.push(x), ps, i) == part_order(x, Seq::<char>::empty()),
    decreases ps.len() - i,
{
    let a = ps.push(x);
    assert(max_len(a, ps) == ps.len() + 1);
    if i < ps.len() {
        assert(part_at(a, i) == ps[i] && part_at(ps, i) == ps[i]);
        lemma_part_order_refl(ps[i]);
        lemma_parts_one_more(ps, x, i + 1);
        assert(parts_order(a, ps, i) == parts_order(a, ps, i + 1));
    } else {
        assert(part_at(a, i) == x && part_at(ps, i) == Seq::<char>::empty());
        assert(parts_order(a, ps, i + 1) == Order::Equal);
    }
}

/// A version without the suffix sits between the pre-release suffixes and
/// `_p`: `1.0_alpha` < `1.0_beta` < `1.0_pre` < `1.0_rc` < `1.0` < `1.0_p`,
/// numbered or not, for a version with no `-` in it (one that ends in a
/// revision loses it once a suffix follows).
#[verifier::spinoff_prover]
pub proof fn law_suffix_against_plain_version(v: Seq<char>, s: Seq<char>, m: Option<u64>)
    requires
        is_suffix_name(s),
        forall|k: int| 0 <= k < v.len() ==> #[trigger] v[k] != '-',
    ensures
        version_order(v + seq!['_'] + (s + suffix_number_text(m)), v) == order_int(suffix_rank(s), 0),
        version_order(v, v + seq!['_'] + (s + suffix_number_text(m))) == order_int(0, suffix_rank(s)),
{
    let x = s + suffix_number_text(m);
    let a = v + seq!['_'] + x;
    lemma_suffix_piece(s, m);
    lemma_suffix_plain_versions(v, x, (suffix_rank(s), suffix_number(m)));
    law_version_order_antisymmetric(v, a);
}

proof fn lemma_suffix_plain_versions(v: Seq<char>, x: Seq<char>, kx: (int, int))
    requires
        plain_piece(x),
        suffix_key(x) == Some(kx),
        forall|k: int| 0 <= k < v.len() ==> #[trigger] v[k] != '-',
    ensures
        version_order(v + seq!['_'] + x, v) == order_int(kx.0, 0),
{
    lemma_one_more_component(v, '_', x);
    lemma_suffix_against_empty(x, kx);
}

proof fn lemma_suffix_against_empty(x: Seq<char>, kx: (int, int))
    requires
        suffix_key(x) == Some(kx),
    ensures
        part_order(x, Seq::<char>::empty()) == order_int(kx.0, 0),
{
    reveal_strlit("alpha");
    reveal_strlit("beta");
    reveal_strlit("pre");
    reveal_strlit("rc");
    reveal_strlit("p");
    let e = Seq::<char>::empty();
    lemma_not_prefix(e, "alpha"@, 0);
    lemma_not_prefix(e, "beta"@, 0);
    lemma_not_prefix(e, "pre"@, 0);
    lemma_not_prefix(e, "rc"@, 0);
    lemma_not_prefix(e, "p"@, 0);
    assert(suffix_key(e) is None);
}

/// A version without `-` against itself with one more component.
proof fn lemma_one_more_component(v: Seq<char>, sep: char, x: Seq<char>)
    requires
        sep == '.' || sep == '_',
        plain_piece(x),
        forall|k: int| 0 <= k < v.len() ==> #[trigger] v[k] != '-',
    ensures
        version_order(v + seq![sep] + x, v) == part_order(x, Seq::<char>::empty()),
{
    lemma_split_rev_none(v, sep, x);
    lemma_split_appended(v, sep, x);
    assert(!exists|i: int| is_rev_marker(v, i));
    assert(split_rev(v) == (v, Option::<Seq<char>>::None));
    lemma_parts_one_more(split_on_either(v, '.', '_'), x, 0);
}

// ───────────────────────── exec ─────────────────────────

fn order_u64(a: u64, b: u64) -> (r: Order)
    ensures
        r == order_int(a as int, b as int),
{
    if a < b {
        Order::Less
    } else if a > b {
        Order::Greater
    } else {
        Order::Equal
    }
}

fn order_i8(a: i8, b: i8) -> (r: Order)
    ensures
        r == order_int(a as int, b as int),
{
    if a < b {
        Order::Less
    } else if a > b {
        Order::Greater
    } else {
        Order::Equal
    }
}

pub(crate) fn order_lex_exec(a: &[char], b: &[char]) -> (r: Order)
    ensures
        r == order_lex(a@, b@),
{
    let mut i: usize = 0;
    assert(a@.skip(0) =~= a@);
    assert(b@.skip(0) =~= b@);
    while i < a.len() && i < b.len()
        invariant
            i <= a.len(),
            i <= b.len(),
            order_lex(a@.skip(i as int), b@.skip(i as int)) == order_lex(a@, b@),
        decreases a.len() - i,
    {
        let ua = char_code(a[i]);
        let ub = char_code(b[i]);
        assert(a@.skip(i as int)[0] == a@[i as int]);
        assert(b@.skip(i as int)[0] == b@[i as int]);
        if ua != ub {
            return if ua < ub {
                Order::Less
            } else {
                Order::Greater
            };
        }
        proof {
            assert(a@.skip(i as int).drop_first() =~= a@.skip(i + 1));
            assert(b@.skip(i as int).drop_first() =~= b@.skip(i + 1));
        }
        i += 1;
    }
    if i < a.len() {
        Order::Greater
    } else if i < b.len() {
        Order::Less
    } else {
        Order::Equal
    }
}

pub open spec fn kind_view(r: Option<(i8, u64)>) -> Option<(int, int)> {
    match r {
        Some((k, n)) => Some((k as int, n as int)),
        None => None,
    }
}

fn suffix_kind_exec(s: &[char], prefix: &[char], kind: i8) -> (r: Option<(i8, u64)>)
    ensures
        kind_view(r) == suffix_kind(s@, prefix@, kind as int),
{
    if !has_prefix(s, prefix) {
        return None;
    }
    let rest = sub_chars(s, prefix.len(), s.len());
    assert(rest@ == s@.skip(prefix@.len() as int));
    if rest.len() == 0 {
        return Some((kind, 0));
    }
    match parse_u64_digits(rest.as_slice()) {
        Some(n) => Some((kind, n)),
        None => None,
    }
}

fn suffix_key_exec(s: &[char]) -> (r: Option<(i8, u64)>)
    ensures
        kind_view(r) == suffix_key(s@),
{
    let a = suffix_kind_exec(s, chars_of("alpha").as_slice(), -4);
    if a.is_some() {
        return a;
    }
    let b = suffix_kind_exec(s, chars_of("beta").as_slice(), -3);
    if b.is_some() {
        return b;
    }
    let c = suffix_kind_exec(s, chars_of("pre").as_slice(), -2);
    if c.is_some() {
        return c;
    }
    let d = suffix_kind_exec(s, chars_of("rc").as_slice(), -1);
    if d.is_some() {
        return d;
    }
    suffix_kind_exec(s, chars_of("p").as_slice(), 1)
}

proof fn lemma_digit_run_bound(s: Seq<char>)
    ensures
        digit_run(s) <= s.len(),
    decreases s.len(),
{
    if s.len() > 0 && is_ascii_digit(s[0]) {
        lemma_digit_run_bound(s.drop_first());
    }
}

fn digit_run_exec(s: &[char]) -> (k: usize)
    ensures
        k as nat == digit_run(s@),
        k <= s.len(),
{
    let mut i: usize = 0;
    assert(s@.skip(0) =~= s@);
    proof {
        lemma_digit_run_bound(s@);
    }
    while i < s.len() && is_digit(s[i])
        invariant
            i <= s.len(),
            i + digit_run(s@.skip(i as int)) == digit_run(s@),
        decreases s.len() - i,
    {
        proof {
            assert(s@.skip(i as int).drop_first() =~= s@.skip(i + 1));
        }
        i += 1;
    }
    i
}

fn part_order_exec(pa: &[char], pb: &[char]) -> (r: Order)
    ensures
        r == part_order(pa@, pb@),
{
    let sa = suffix_key_exec(pa);
    let sb = suffix_key_exec(pb);
    match (sa, sb) {
        (Some(x), Some(y)) => {
            if x.0 != y.0 {
                order_i8(x.0, y.0)
            } else {
                order_u64(x.1, y.1)
            }
        },
        (Some(x), None) => order_i8(x.0, 0),
        (None, Some(y)) => order_i8(0, y.0),
        (None, None) => {
            let ka = digit_run_exec(pa);
            let kb = digit_run_exec(pb);
            let na = if ka > 0 {
                let d = sub_chars(pa, 0, ka);
                assert(d@ == pa@.take(ka as int));
                parse_u64_digits(d.as_slice())
            } else {
                None
            };
            let nb = if kb > 0 {
                let d = sub_chars(pb, 0, kb);
                assert(d@ == pb@.take(kb as int));
                parse_u64_digits(d.as_slice())
            } else {
                None
            };
            let la: Option<char> = if ka < pa.len() && is_lower(pa[ka]) {
                Some(pa[ka])
            } else {
                None
            };
            let lb: Option<char> = if kb < pb.len() && is_lower(pb[kb]) {
                Some(pb[kb])
            } else {
                None
            };
            match (na, nb) {
                (Some(x), Some(y)) => {
                    if x != y {
                        order_u64(x, y)
                    } else {
                        match (la, lb) {
                            (None, None) => Order::Equal,
                            (None, Some(_)) => Order::Less,
                            (Some(_), None) => Order::Greater,
                            (Some(ca), Some(cb)) => {
                                let ua = char_code(ca);
                                let ub = char_code(cb);
                                order_u64(ua as u64, ub as u64)
                            },
                        }
                    }
                },
                (Some(_), None) => Order::Greater,
                (None, Some(_)) => Order::Less,
                (None, None) => order_lex_exec(pa, pb),
            }
        },
    }
}

/// Position of the last `-r` in `v`.
fn last_rev_marker_exec(v: &[char]) -> (r: Option<usize>)
    ensures
        match r {
            Some(p) => last_rev_marker(v@) == Some(p as int) && is_rev_marker(v@, p as int),
            None => last_rev_marker(v@).is_none(),
        },
{
    let mut i: usize = v.len();
    while i > 0
        invariant
            i <= v.len(),
            forall|j: int| i <= j ==> !is_rev_marker(v@, j),
        decreases i,
    {
        i -= 1;
        if i + 1 < v.len() && v[i] == '-' && v[i + 1] == 'r' {
            proof {
                assert(is_rev_marker(v@, i as int));
                let c = choose|k: int|
                    is_rev_marker(v@, k) && forall|j: int| k < j ==> !is_rev_marker(v@, j);
                assert(is_rev_marker(v@, c) && forall|j: int| c < j ==> !is_rev_marker(v@, j));
                if c < i {
                    assert(!is_rev_marker(v@, i as int));
                }
                assert(c == i);
            }
            return Some(i);
        }
        assert(!is_rev_marker(v@, i as int));
    }
    assert forall|j: int| !is_rev_marker(v@, j) by {
        if 0 <= j {
        }
    }
    None
}

/// Split a version string into (base_version, revision).
///
/// e.g. `3.1.4-r1` → `("3.1.4", Some("r1"))`
///       `3.1.4`   → `("3.1.4", None)`
pub fn split_revision(version: &str) -> (r: (&str, Option<&str>))
    ensures
        r.0@ == split_rev(version@).0,
        match r.1 {
            Some(x) => split_rev(version@).1 == Some(x@),
            None => split_rev(version@).1.is_none(),
        },
{
    let v = chars_of(version);
    match last_rev_marker_exec(v.as_slice()) {
        Some(pos) => {
            assert(is_rev_marker(v@, pos as int));
            assert(pos + 1 < v.len());
            let after = sub_chars(v.as_slice(), pos + 2, v.len());
            assert(after@ == v@.skip(pos + 2));
            if after.len() > 0 && all_digits_exec(after.as_slice()) {
                let base = version.substring_char(0, pos);
                let rev = version.substring_char(pos + 1, v.len());
                assert(base@ =~= version@.take(pos as int));
                assert(rev@ =~= version@.skip(pos + 1));
                (base, Some(rev))
            } else {
                (version, None)
            }
        },
        None => (version, None),
    }
}

fn rev_num_exec(r: Option<&str>) -> (n: u64)
    ensures
        n as int == rev_num(match r {
            Some(x) => Some(x@),
            None => None,
        }),
{
    match r {
        Some(x) => {
            let c = chars_of(x);
            if c.len() > 0 && c[0] == 'r' {
                let rest = sub_chars(c.as_slice(), 1, c.len());
                assert(rest@ =~= c@.drop_first());
                match parse_u64_digits(rest.as_slice()) {
                    Some(n) => n,
                    None => 0,
                }
            } else {
                0
            }
        },
        None => 0,
    }
}

proof fn lemma_parts_step(a: Seq<Seq<char>>, b: Seq<Seq<char>>, i: int)
    requires
        0 <= i < max_len(a, b),
    ensures
        parts_order(a, b, i) == (if part_order(part_at(a, i), part_at(b, i)) != Order::Equal {
            part_order(part_at(a, i), part_at(b, i))
        } else {
            parts_order(a, b, i + 1)
        }),
{
}

fn part_order_at(ap: &Vec<Vec<char>>, bp: &Vec<Vec<char>>, i: usize) -> (r: Order)
    ensures
        r == part_order(part_at(vv(ap@), i as int), part_at(vv(bp@), i as int)),
{
    let empty: Vec<char> = Vec::new();
    if i < ap.len() {
        assert(part_at(vv(ap@), i as int) == ap@[i as int]@);
        if i < bp.len() {
            assert(part_at(vv(bp@), i as int) == bp@[i as int]@);
            part_order_exec(ap[i].as_slice(), bp[i].as_slice())
        } else {
            assert(part_at(vv(bp@), i as int) =~= empty@);
            part_order_exec(ap[i].as_slice(), empty.as_slice())
        }
    } else {
        assert(part_at(vv(ap@), i as int) =~= empty@);
        if i < bp.len() {
            assert(part_at(vv(bp@), i as int) == bp@[i as int]@);
            part_order_exec(empty.as_slice(), bp[i].as_slice())
        } else {
            assert(part_at(vv(bp@), i as int) =~= empty@);
            part_order_exec(empty.as_slice(), empty.as_slice())
        }
    }
}

fn parts_order_exec(ap: &Vec<Vec<char>>, bp: &Vec<Vec<char>>) -> (r: Order)
    ensures
        r == parts_order(vv(ap@), vv(bp@), 0),
{
    let ghost aps = vv(ap@);
    let ghost bps = vv(bp@);
    let max = if ap.len() >= bp.len() {
        ap.len()
    } else {
        bp.len()
    };
    assert(max == max_len(aps, bps));
    let mut i: usize = 0;
    while i < max
        invariant
            aps == vv(ap@),
            bps == vv(bp@),
            max == max_len(aps, bps),
            i <= max,
            parts_order(aps, bps, i as int) == parts_order(aps, bps, 0),
        decreases max - i,
    {
        let o = part_order_at(ap, bp, i);
        proof {
            lemma_parts_step(aps, bps, i as int);
        }
        match o {
            Order::Equal => {},
            _ => {
                return o;
            },
        }
        i += 1;
    }
    Order::Equal
}

/// PMS order of two version strings, as an [`Order`].
pub fn version_order_exec(a: &str, b: &str) -> (r: Order)
    ensures
        r == version_order(a@, b@),
{
    let (a_base, a_rev) = split_revision(a);
    let (b_base, b_rev) = split_revision(b);
    let ac = chars_of(a_base);
    let bc = chars_of(b_base);
    let ap = split_chars_either(ac.as_slice(), '.', '_');
    let bp = split_chars_either(bc.as_slice(), '.', '_');
    let o = parts_order_exec(&ap, &bp);
    match o {
        Order::Equal => {
            let ra = rev_num_exec(a_rev);
            let rb = rev_num_exec(b_rev);
            order_u64(ra, rb)
        },
        _ => o,
    }
}

/// The std ordering that corresponds to an [`Order`].
pub open spec fn to_ordering(o: Order) -> std::cmp::Ordering {
    match o {
        Order::Less => std::cmp::Ordering::Less,
        Order::Equal => std::cmp::Ordering::Equal,
        Order::Greater => std::cmp::Ordering::Greater,
    }
}

/// Compare two portage version strings per PMS rules.
///
/// Handles numeric components (`1.9` < `1.10`), trailing letters
/// (`1.1.1a` < `1.1.1z`), suffixes (`_alpha` < `_beta` < `_pre` < `_rc` <
/// (none) < `_p`) and revisions (`-r0` < `-r1`).
pub fn compare_versions(a: &str, b: &str) -> (r: std::cmp::Ordering)
    ensures
        r == to_ordering(version_order(a@, b@)),
{
    match version_order_exec(a, b) {
        Order::Less => std::cmp::Ordering::Less,
        Order::Equal => std::cmp::Ordering::Equal,
        Order::Greater => std::cmp::Ordering::Greater,
    }
}

/// Split a portage package-version string into (name, optional version).
///
/// The version starts at the last `-` followed by a digit, e.g.
/// `openssl-3.1.4-r1` → `("openssl", Some("3.1.4-r1"))`.
pub open spec fn is_version_dash(s: Seq<char>, i: int) -> bool {
    0 <= i && i + 1 < s.len() && s[i] == '-' && is_ascii_digit(s[i + 1])
}

pub open spec fn last_version_dash(s: Seq<char>) -> Option<int> {
    if exists|i: int| is_version_dash(s, i) {
        Some(choose|i: int| is_version_dash(s, i) && forall|j: int| i < j ==> !is_version_dash(s, j))
    } else {
        None
    }
}

pub open spec fn split_name_version_spec(s: Seq<char>) -> (Seq<char>, Option<Seq<char>>) {
    match last_version_dash(s) {
        Some(i) => (s.take(i), Some(s.skip(i + 1))),
        None => (s, None),
    }
}

pub(crate) fn last_version_dash_exec(v: &[char]) -> (r: Option<usize>)
    ensures
        match r {
            Some(p) => last_version_dash(v@) == Some(p as int) && is_version_dash(v@, p as int),
            None => last_version_dash(v@).is_none(),
        },
{
    let mut i: usize = v.len();
    while i > 0
        invariant
            i <= v.len(),
            forall|j: int| i <= j ==> !is_version_dash(v@, j),
        decreases i,
    {
        i -= 1;
        if i + 1 < v.len() && v[i] == '-' && is_digit(v[i + 1]) {
            proof {
                assert(is_version_dash(v@, i as int));
                let c = choose|k: int|
                    is_version_dash(v@, k) && forall|j: int| k < j ==> !is_version_dash(v@, j);
                assert(is_version_dash(v@, c) && forall|j: int| c < j ==> !is_version_dash(v@, j));
                if c < i {
                    assert(!is_version_dash(v@, i as int));
                }
                assert(c == i);
            }
            return Some(i);
        }
        assert(!is_version_dash(v@, i as int));
    }
    assert forall|j: int| !is_version_dash(v@, j) by {
        if 0 <= j {
        }
    }
    None
}

/// Split a portage package-version string into (name, optional version).
///
/// Uses the PMS rule: the version starts at the last `-` followed by a digit.
pub fn split_name_version(s: &str) -> (r: (&str, Option<&str>))
    ensures
        r.0@ == split_name_version_spec(s@).0,
        match r.1 {
            Some(x) => split_name_version_spec(s@).1 == Some(x@),
            None => split_name_version_spec(s@).1.is_none(),
        },
{
    let v = chars_of(s);
    match last_version_dash_exec(v.as_slice()) {
        Some(i) => {
            assert(is_version_dash(v@, i as int));
            let name = s.substring_char(0, i);
            let version = s.substring_char(i + 1, v.len());
            assert(name@ =~= s@.take(i as int));
            assert(version@ =~= s@.skip(i + 1));
            (name, Some(version))
        },
        None => (s, None),
    }
}

/// Version comparison operator parsed from a portage atom.
#[derive(Debug, Clone, Copy, PartialEq, Eq, Structural)]
pub enum AtomOp {
    /// No operator — bare `category/package`.
    Plain,
    /// `=` — exact version match.
    Eq,
    /// `=....*` — version glob.
    EqGlob,
    /// `~` — same version, any revision.
    Tilde,
    /// `>=` — greater than or equal.
    Ge,
    /// `<=` — less than or equal.
    Le,
    /// `>` — strictly greater.
    Gt,
    /// `<` — strictly less.
    Lt,
}

pub open spec fn parse_atom_operator_spec(a: Seq<char>) -> (AtomOp, Seq<char>) {
    if starts_with(a, ">="@) {
        (AtomOp::Ge, a.skip(2))
    } else if starts_with(a, "<="@) {
        (AtomOp::Le, a.skip(2))
    } else if a.len() > 0 && a[0] == '=' {
        let rest = a.skip(1);
        if rest.len() > 0 && rest.last() == '*' {
            (AtomOp::EqGlob, rest)
        } else {
            (AtomOp::Eq, rest)
        }
    } else if a.len() > 0 && a[0] == '~' {
        (AtomOp::Tilde, a.skip(1))
    } else if a.len() > 0 && a[0] == '>' {
        (AtomOp::Gt, a.skip(1))
    } else if a.len() > 0 && a[0] == '<' {
        (AtomOp::Lt, a.skip(1))
    } else {
        (AtomOp::Plain, a)
    }
}

/// Parse the version operator prefix from a portage atom.
///
/// Returns `(operator, remaining_atom)`.  For `=cat/pkg-1.2*` atoms the
/// glob star is left in the version and the operator is `EqGlob`.
pub fn parse_atom_operator(atom: &str) -> (r: (AtomOp, &str))
    ensures
        (r.0, r.1@) == parse_atom_operator_spec(atom@),
{
    let v = chars_of(atom);
    let n = v.len();
    proof {
        reveal_strlit(">=");
        reveal_strlit("<=");
    }
    if n >= 2 && v[0] == '>' && v[1] == '=' {
        assert(v@.take(2) =~= ">="@);
        let rest = atom.substring_char(2, n);
        assert(rest@ =~= atom@.skip(2));
        return (AtomOp::Ge, rest);
    }
    assert(!starts_with(atom@, ">="@)) by {
        if starts_with(atom@, ">="@) {
            assert(atom@.take(2)[0] == '>' && atom@.take(2)[1] == '=');
        }
    }
    if n >= 2 && v[0] == '<' && v[1] == '=' {
        assert(v@.take(2) =~= "<="@);
        let rest = atom.substring_char(2, n);
        assert(rest@ =~= atom@.skip(2));
        return (AtomOp::Le, rest);
    }
    assert(!starts_with(atom@, "<="@)) by {
        if starts_with(atom@, "<="@) {
            assert(atom@.take(2)[0] == '<' && atom@.take(2)[1] == '=');
        }
    }
    if n >= 1 {
        let rest = atom.substring_char(1, n);
        assert(rest@ =~= atom@.skip(1));
        if v[0] == '=' {
            if n >= 2 && v[n - 1] == '*' {
                return (AtomOp::EqGlob, rest);
            } else {
                return (AtomOp::Eq, rest);
            }
        } else if v[0] == '~' {
            return (AtomOp::Tilde, rest);
        } else if v[0] == '>' {
            return (AtomOp::Gt, rest);
        } else if v[0] == '<' {
            return (AtomOp::Lt, rest);
        }
    }
    (AtomOp::Plain, atom)
}

} // verus!

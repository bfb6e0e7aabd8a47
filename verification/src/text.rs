//! Character-level text primitives shared by the parsers of this crate.
//!
//! Every executable helper here is tied to a spec function over `Seq<char>`
//! that says what the matching `str` method of std computes: `trim`,
//! `split_whitespace`, `split(char)`, `lines`, `starts_with`, ASCII case
//! folding and decimal formatting.
use vstd::prelude::*;

verus! {

broadcast use vstd::string::group_string_axioms;

// ───────────────────────── spec side ─────────────────────────

/// Unicode `White_Space`, the set that `char::is_whitespace`, `str::trim`
/// and `str::split_whitespace` use.
pub open spec fn is_ws(c: char) -> bool {
    ||| c == '\t'
    ||| c == '\n'
    ||| c == '\x0B'
    ||| c == '\x0C'
    ||| c == '\r'
    ||| c == ' '
    ||| c == '\u{85}'
    ||| c == '\u{A0}'
    ||| c == '\u{1680}'
    ||| ('\u{2000}' as u32 <= c as u32 && c as u32 <= '\u{200A}' as u32)
    ||| c == '\u{2028}'
    ||| c == '\u{2029}'
    ||| c == '\u{202F}'
    ||| c == '\u{205F}'
    ||| c == '\u{3000}'
}

pub open spec fn is_ascii_digit(c: char) -> bool {
    '0' as u32 <= c as u32 && c as u32 <= '9' as u32
}

pub open spec fn is_ascii_upper(c: char) -> bool {
    'A' as u32 <= c as u32 && c as u32 <= 'Z' as u32
}

pub open spec fn is_ascii_lower(c: char) -> bool {
    'a' as u32 <= c as u32 && c as u32 <= 'z' as u32
}

pub open spec fn is_ascii_alpha(c: char) -> bool {
    is_ascii_upper(c) || is_ascii_lower(c)
}

pub open spec fn is_ascii_hex(c: char) -> bool {
    is_ascii_digit(c) || ('a' as u32 <= c as u32 && c as u32 <= 'f' as u32) || (
    'A' as u32 <= c as u32 && c as u32 <= 'F' as u32)
}

/// `char::to_ascii_lowercase`.
pub open spec fn ascii_lower(c: char) -> char {
    if is_ascii_upper(c) {
        ((c as u32) + 32) as char
    } else {
        c
    }
}

/// `str::to_ascii_lowercase`.
pub open spec fn ascii_lower_seq(s: Seq<char>) -> Seq<char> {
    s.map_values(|c: char| ascii_lower(c))
}

/// `str::eq_ignore_ascii_case`.
pub open spec fn eq_ignore_case(a: Seq<char>, b: Seq<char>) -> bool {
    ascii_lower_seq(a) == ascii_lower_seq(b)
}

pub open spec fn starts_with(s: Seq<char>, p: Seq<char>) -> bool {
    p.len() <= s.len() && s.take(p.len() as int) == p
}

pub open spec fn ends_with(s: Seq<char>, p: Seq<char>) -> bool {
    p.len() <= s.len() && s.skip(s.len() - p.len()) == p
}

/// `p` occurs in `s` starting at position `i`.
pub open spec fn occurs_at(s: Seq<char>, p: Seq<char>, i: int) -> bool {
    0 <= i && i + p.len() <= s.len() && s.subrange(i, i + p.len()) == p
}

/// `str::contains` for a string pattern.
pub open spec fn contains_seq(s: Seq<char>, p: Seq<char>) -> bool {
    exists|i: int| occurs_at(s, p, i)
}

/// `s` with leading white space removed (`str::trim_start`).
pub open spec fn trim_start(s: Seq<char>) -> Seq<char>
    decreases s.len(),
{
    if s.len() > 0 && is_ws(s[0]) {
        trim_start(s.drop_first())
    } else {
        s
    }
}

/// `s` with trailing white space removed (`str::trim_end`).
pub open spec fn trim_end(s: Seq<char>) -> Seq<char>
    decreases s.len(),
{
    if s.len() > 0 && is_ws(s.last()) {
        trim_end(s.drop_last())
    } else {
        s
    }
}

/// `str::trim`.
pub open spec fn trim(s: Seq<char>) -> Seq<char> {
    trim_end(trim_start(s))
}

/// `str::split(sep)`: the pieces between occurrences of `sep`, at least one.
pub open spec fn split_on(s: Seq<char>, sep: char) -> Seq<Seq<char>>
    decreases s.len(),
{
    if s.len() == 0 {
        seq![Seq::<char>::empty()]
    } else {
        let p = split_on(s.drop_last(), sep);
        if s.last() == sep {
            p.push(Seq::<char>::empty())
        } else {
            p.update(p.len() - 1, p.last().push(s.last()))
        }
    }
}

/// `str::split(|c| c == a || c == b)`: pieces between occurrences of
/// either separator, at least one.
pub open spec fn split_on_either(s: Seq<char>, a: char, b: char) -> Seq<Seq<char>>
    decreases s.len(),
{
    if s.len() == 0 {
        seq![Seq::<char>::empty()]
    } else {
        let p = split_on_either(s.drop_last(), a, b);
        if s.last() == a || s.last() == b {
            p.push(Seq::<char>::empty())
        } else {
            p.update(p.len() - 1, p.last().push(s.last()))
        }
    }
}

/// `str::split_whitespace`: the maximal runs of non white space characters.
pub open spec fn words(s: Seq<char>) -> Seq<Seq<char>>
    decreases s.len(),
{
    if s.len() == 0 {
        Seq::<Seq<char>>::empty()
    } else {
        let w = words(s.drop_last());
        let c = s.last();
        if is_ws(c) {
            w
        } else if s.len() >= 2 && !is_ws(s[s.len() - 2]) {
            w.update(w.len() - 1, w.last().push(c))
        } else {
            w.push(seq![c])
        }
    }
}

/// A line of `str::lines` keeps a trailing `\r` only when it is the last
/// line and no `\n` follows it.
pub open spec fn strip_cr(l: Seq<char>) -> Seq<char> {
    if l.len() > 0 && l.last() == '\r' {
        l.drop_last()
    } else {
        l
    }
}

/// `str::lines`.
pub open spec fn lines(s: Seq<char>) -> Seq<Seq<char>> {
    let p = split_on(s, '\n');
    let n: int = if p.last().len() == 0 { p.len() - 1 } else { p.len() as int };
    Seq::new(
        n as nat,
        |i: int|
            if i < p.len() - 1 {
                strip_cr(p[i])
            } else {
                p[i]
            },
    )
}

/// `s` with every occurrence of `c` removed.
pub open spec fn remove_char(s: Seq<char>, c: char) -> Seq<char> {
    s.filter(|x: char| x != c)
}

/// Pieces joined with a separator, as `[String]::join` does.
pub open spec fn join(parts: Seq<Seq<char>>, sep: Seq<char>) -> Seq<char>
    decreases parts.len(),
{
    if parts.len() == 0 {
        Seq::<char>::empty()
    } else if parts.len() == 1 {
        parts[0]
    } else {
        join(parts.drop_last(), sep) + sep + parts.last()
    }
}

/// The character of a decimal digit.
pub open spec fn digit_char(d: int) -> char {
    (('0' as u32) + d) as char
}

/// The value of a decimal digit character.
pub open spec fn digit_value(c: char) -> int {
    (c as u32) - ('0' as u32)
}

/// Decimal representation of a natural number, as `u64::to_string` prints it.
pub open spec fn decimal(n: nat) -> Seq<char>
    decreases n,
{
    if n < 10 {
        seq![digit_char(n as int)]
    } else {
        decimal(n / 10).push(digit_char((n % 10) as int))
    }
}

/// Numeric value of a string of decimal digits.
pub open spec fn digits_value(s: Seq<char>) -> nat
    decreases s.len(),
{
    if s.len() == 0 {
        0
    } else {
        (digits_value(s.drop_last()) * 10 + digit_value(s.last())) as nat
    }
}

pub open spec fn all_digits(s: Seq<char>) -> bool {
    forall|i: int| 0 <= i < s.len() ==> is_ascii_digit(#[trigger] s[i])
}

/// What `str::parse::<u64>` returns on a string made only of digits.
pub open spec fn parse_digits_u64(s: Seq<char>) -> Option<u64> {
    if s.len() > 0 && all_digits(s) && digits_value(s) <= u64::MAX {
        Some(digits_value(s) as u64)
    } else {
        None
    }
}

/// Deep view of a vector of character vectors.
pub open spec fn vv(v: Seq<Vec<char>>) -> Seq<Seq<char>> {
    v.map_values(|x: Vec<char>| x@)
}

/// Views of a vector of strings.
pub open spec fn sv(v: Seq<String>) -> Seq<Seq<char>> {
    v.map_values(|x: String| x@)
}

// ───────────────────────── lemmas ─────────────────────────

pub proof fn lemma_take_push<A>(s: Seq<A>, i: int)
    requires
        0 <= i < s.len(),
    ensures
        s.take(i + 1) == s.take(i).push(s[i]),
        s.take(i + 1).drop_last() == s.take(i),
        s.take(i + 1).last() == s[i],
{
    assert(s.take(i + 1) =~= s.take(i).push(s[i]));
}

proof fn lemma_trim_start_skip(s: Seq<char>, i: int)
    requires
        0 <= i < s.len(),
        is_ws(s[i]),
    ensures
        trim_start(s.skip(i)) == trim_start(s.skip(i + 1)),
{
    assert(s.skip(i).drop_first() =~= s.skip(i + 1));
}

proof fn lemma_trim_end_take(s: Seq<char>, j: int)
    requires
        0 < j <= s.len(),
        is_ws(s[j - 1]),
    ensures
        trim_end(s.take(j)) == trim_end(s.take(j - 1)),
{
    assert(s.take(j).drop_last() =~= s.take(j - 1));
}

// ───────────────────────── exec side ─────────────────────────

/// Appends one character to a string.
#[verifier::external_body]
pub(crate) fn push_char(s: &mut String, c: char)
    ensures
        final(s)@ == old(s)@.push(c),
{
    s.push(c);
}

/// The characters of a string slice, in order.
pub fn chars_of(s: &str) -> (v: Vec<char>)
    ensures
        v@ == s@,
{
    let mut v: Vec<char> = Vec::new();
    for c in it: s.chars()
        invariant
            v@ == it.seq().take(it.index() as int),
            it.seq() == s@,
    {
        v.push(c);
    }
    v
}

/// Builds a string from a sequence of characters.
pub fn string_of(cs: &[char]) -> (s: String)
    ensures
        s@ == cs@,
{
    let mut s = String::new();
    let mut i: usize = 0;
    while i < cs.len()
        invariant
            i <= cs.len(),
            s@ == cs@.take(i as int),
        decreases cs.len() - i,
    {
        push_char(&mut s, cs[i]);
        proof {
            lemma_take_push(cs@, i as int);
        }
        i += 1;
    }
    assert(cs@.take(cs.len() as int) =~= cs@);
    s
}

/// Strings of a list of character vectors.
pub fn strings_of(v: &Vec<Vec<char>>) -> (r: Vec<String>)
    ensures
        sv(r@) == vv(v@),
{
    let mut r: Vec<String> = Vec::new();
    let mut i: usize = 0;
    while i < v.len()
        invariant
            i <= v.len(),
            sv(r@) == vv(v@).take(i as int),
        decreases v.len() - i,
    {
        let s = string_of(v[i].as_slice());
        let ghost old_r = r@;
        r.push(s);
        proof {
            assert(r@ == old_r.push(s));
            assert(sv(r@) =~= sv(old_r).push(s@));
            assert(vv(v@).take(i + 1) =~= vv(v@).take(i as int).push(v@[i as int]@));
        }
        i += 1;
    }
    assert(vv(v@).take(v.len() as int) =~= vv(v@));
    r
}

/// The characters of each string of a list.
pub fn chars_of_all(v: &[String]) -> (r: Vec<Vec<char>>)
    ensures
        vv(r@) == sv(v@),
{
    let mut r: Vec<Vec<char>> = Vec::new();
    let mut i: usize = 0;
    while i < v.len()
        invariant
            i <= v.len(),
            vv(r@) == sv(v@).take(i as int),
        decreases v.len() - i,
    {
        let c = chars_of(v[i].as_str());
        let ghost old_r = r@;
        r.push(c);
        proof {
            assert(r@ == old_r.push(c));
            assert(vv(r@) =~= vv(old_r).push(c@));
            assert(sv(v@).take(i + 1) =~= sv(v@).take(i as int).push(v@[i as int]@));
        }
        i += 1;
    }
    assert(sv(v@).take(v.len() as int) =~= sv(v@));
    r
}

/// The code point of a character.
pub fn char_code(c: char) -> (r: u32)
    ensures
        r as int == c as int,
{
    c as u32
}

/// `char::is_whitespace`.
pub fn is_whitespace(c: char) -> (b: bool)
    ensures
        b == is_ws(c),
{
    let u = c as u32;
    u == 9 || u == 10 || u == 11 || u == 12 || u == 13 || u == 32 || u == 0x85 || u == 0xA0
        || u == 0x1680 || (0x2000 <= u && u <= 0x200A) || u == 0x2028 || u == 0x2029 || u
        == 0x202F || u == 0x205F || u == 0x3000
}

/// `char::is_ascii_digit`.
pub fn is_digit(c: char) -> (b: bool)
    ensures
        b == is_ascii_digit(c),
{
    let u = c as u32;
    48 <= u && u <= 57
}

/// `char::is_ascii_hexdigit`.
pub fn is_hex_digit(c: char) -> (b: bool)
    ensures
        b == is_ascii_hex(c),
{
    let u = c as u32;
    (48 <= u && u <= 57) || (97 <= u && u <= 102) || (65 <= u && u <= 70)
}

/// `char::is_ascii_lowercase`.
pub fn is_lower(c: char) -> (b: bool)
    ensures
        b == is_ascii_lower(c),
{
    let u = c as u32;
    97 <= u && u <= 122
}

/// `char::is_ascii_alphabetic`.
pub fn is_alpha(c: char) -> (b: bool)
    ensures
        b == is_ascii_alpha(c),
{
    let u = c as u32;
    (97 <= u && u <= 122) || (65 <= u && u <= 90)
}

/// `char::to_ascii_lowercase`.
pub fn to_ascii_lower(c: char) -> (r: char)
    ensures
        r == ascii_lower(c),
{
    let u = c as u32;
    if 65 <= u && u <= 90 {
        let b: u8 = (u + 32) as u8;
        b as char
    } else {
        c
    }
}

/// `str::to_ascii_lowercase` on characters.
pub fn lower_chars(s: &Vec<char>) -> (r: Vec<char>)
    ensures
        r@ == ascii_lower_seq(s@),
{
    let mut r: Vec<char> = Vec::new();
    let mut i: usize = 0;
    while i < s.len()
        invariant
            i <= s.len(),
            r@ == ascii_lower_seq(s@).take(i as int),
        decreases s.len() - i,
    {
        r.push(to_ascii_lower(s[i]));
        proof {
            assert(r@ =~= ascii_lower_seq(s@).take(i + 1));
        }
        i += 1;
    }
    assert(ascii_lower_seq(s@).take(s.len() as int) =~= ascii_lower_seq(s@));
    r
}

/// Equality of two character sequences.
pub fn eq_chars(a: &[char], b: &[char]) -> (r: bool)
    ensures
        r == (a@ == b@),
{
    if a.len() != b.len() {
        return false;
    }
    let mut i: usize = 0;
    while i < a.len()
        invariant
            a.len() == b.len(),
            i <= a.len(),
            forall|k: int| 0 <= k < i ==> a@[k] == b@[k],
        decreases a.len() - i,
    {
        if a[i] != b[i] {
            return false;
        }
        i += 1;
    }
    assert(a@ =~= b@);
    true
}

/// `str::eq_ignore_ascii_case` on characters.
pub fn eq_ignore_ascii_case(a: &[char], b: &[char]) -> (r: bool)
    ensures
        r == eq_ignore_case(a@, b@),
{
    if a.len() != b.len() {
        assert(ascii_lower_seq(a@).len() != ascii_lower_seq(b@).len());
        return false;
    }
    let mut i: usize = 0;
    while i < a.len()
        invariant
            a.len() == b.len(),
            i <= a.len(),
            forall|k: int| 0 <= k < i ==> ascii_lower(a@[k]) == ascii_lower(b@[k]),
        decreases a.len() - i,
    {
        if to_ascii_lower(a[i]) != to_ascii_lower(b[i]) {
            assert(ascii_lower_seq(a@)[i as int] != ascii_lower_seq(b@)[i as int]);
            return false;
        }
        i += 1;
    }
    assert(ascii_lower_seq(a@) =~= ascii_lower_seq(b@));
    true
}

/// Whether `s` begins with `p`.
pub fn has_prefix(s: &[char], p: &[char]) -> (r: bool)
    ensures
        r == starts_with(s@, p@),
{
    if p.len() > s.len() {
        return false;
    }
    let mut i: usize = 0;
    while i < p.len()
        invariant
            p.len() <= s.len(),
            i <= p.len(),
            forall|k: int| 0 <= k < i ==> s@[k] == p@[k],
        decreases p.len() - i,
    {
        if s[i] != p[i] {
            assert(s@.take(p.len() as int)[i as int] != p@[i as int]);
            return false;
        }
        i += 1;
    }
    assert(s@.take(p.len() as int) =~= p@);
    true
}

/// Whether `p` occurs in `s` at position `at`.
pub fn occurs_at_exec(s: &[char], p: &[char], at: usize) -> (r: bool)
    ensures
        r == occurs_at(s@, p@, at as int),
{
    if at > s.len() || p.len() > s.len() - at {
        return false;
    }
    let mut i: usize = 0;
    while i < p.len()
        invariant
            at + p.len() <= s.len(),
            i <= p.len(),
            forall|k: int| 0 <= k < i ==> s@[at + k] == p@[k],
        decreases p.len() - i,
    {
        if s[at + i] != p[i] {
            assert(s@.subrange(at as int, at + p.len())[i as int] != p@[i as int]);
            return false;
        }
        i += 1;
    }
    assert(s@.subrange(at as int, at + p.len()) =~= p@);
    true
}

/// Whether `s` ends with `p`.
pub fn has_suffix(s: &[char], p: &[char]) -> (r: bool)
    ensures
        r == ends_with(s@, p@),
{
    if p.len() > s.len() {
        return false;
    }
    let r = occurs_at_exec(s, p, s.len() - p.len());
    assert(s@.subrange(s.len() - p.len(), s.len() as int) =~= s@.skip(s.len() - p.len()));
    r
}

/// `str::contains` for a string pattern.
pub fn contains_chars(s: &[char], p: &[char]) -> (r: bool)
    ensures
        r == contains_seq(s@, p@),
{
    if p.len() > s.len() {
        assert forall|i: int| !occurs_at(s@, p@, i) by {}
        return false;
    }
    if p.len() == 0 {
        assert(s@.subrange(0, 0) =~= p@);
        assert(occurs_at(s@, p@, 0));
        return true;
    }
    let mut i: usize = 0;
    while i <= s.len() - p.len()
        invariant
            1 <= p.len() <= s.len(),
            i <= s.len() - p.len() + 1,
            forall|k: int| 0 <= k < i ==> !occurs_at(s@, p@, k),
        decreases s.len() - p.len() + 1 - i,
    {
        if occurs_at_exec(s, p, i) {
            return true;
        }
        i += 1;
    }
    assert forall|k: int| !occurs_at(s@, p@, k) by {
        if 0 <= k && k + p.len() <= s.len() {
        }
    }
    false
}

/// Appends the characters of `src` to `dst`.
pub fn append_chars(dst: &mut Vec<char>, src: &[char])
    ensures
        final(dst)@ == old(dst)@ + src@,
{
    let ghost start = dst@;
    let mut i: usize = 0;
    while i < src.len()
        invariant
            i <= src.len(),
            dst@ == start + src@.take(i as int),
        decreases src.len() - i,
    {
        dst.push(src[i]);
        proof {
            lemma_take_push(src@, i as int);
            assert(dst@ =~= start + src@.take(i + 1));
        }
        i += 1;
    }
    assert(src@.take(src.len() as int) =~= src@);
}

/// The concatenation of two character sequences.
pub fn concat_chars(a: &[char], b: &[char]) -> (r: Vec<char>)
    ensures
        r@ == a@ + b@,
{
    let mut r: Vec<char> = Vec::new();
    append_chars(&mut r, a);
    append_chars(&mut r, b);
    assert(Seq::<char>::empty() + a@ =~= a@);
    r
}

/// A copy of `s[a..b]`.
pub fn sub_chars(s: &[char], a: usize, b: usize) -> (r: Vec<char>)
    requires
        a <= b <= s.len(),
    ensures
        r@ == s@.subrange(a as int, b as int),
{
    let mut r: Vec<char> = Vec::new();
    let mut i: usize = a;
    while i < b
        invariant
            a <= i <= b <= s.len(),
            r@ == s@.subrange(a as int, i as int),
        decreases b - i,
    {
        r.push(s[i]);
        proof {
            assert(r@ =~= s@.subrange(a as int, i + 1));
        }
        i += 1;
    }
    r
}

/// Index of the first character of `trim_start(s)`.
pub fn trim_start_index(s: &[char]) -> (i: usize)
    ensures
        i <= s.len(),
        s@.skip(i as int) == trim_start(s@),
{
    let mut i: usize = 0;
    assert(s@.skip(0) =~= s@);
    while i < s.len() && is_whitespace(s[i])
        invariant
            i <= s.len(),
            trim_start(s@.skip(i as int)) == trim_start(s@),
        decreases s.len() - i,
    {
        proof {
            lemma_trim_start_skip(s@, i as int);
        }
        i += 1;
    }
    assert(trim_start(s@.skip(i as int)) == s@.skip(i as int));
    i
}

/// Bounds of `trim(s)` inside `s`.
pub fn trim_bounds(s: &[char]) -> (r: (usize, usize))
    ensures
        r.0 <= r.1 <= s.len(),
        s@.subrange(r.0 as int, r.1 as int) == trim(s@),
{
    let a = trim_start_index(s);
    let ghost t = s@.skip(a as int);
    let mut j: usize = s.len();
    assert(t.take(t.len() as int) =~= t);
    while j > a && is_whitespace(s[j - 1])
        invariant
            a <= j <= s.len(),
            t == s@.skip(a as int),
            trim_end(t.take(j - a)) == trim_end(t),
        decreases j,
    {
        proof {
            assert(t[j - a - 1] == s@[j - 1]);
            lemma_trim_end_take(t, j - a);
        }
        j -= 1;
    }
    assert(trim_end(t.take(j - a)) == t.take(j - a));
    assert(t.take(j - a) =~= s@.subrange(a as int, j as int));
    (a, j)
}

/// A copy of `trim(s)`.
pub fn trim_chars(s: &[char]) -> (r: Vec<char>)
    ensures
        r@ == trim(s@),
{
    let (a, b) = trim_bounds(s);
    sub_chars(s, a, b)
}

/// `str::split` yields at least one piece.
pub proof fn lemma_split_on_nonempty(s: Seq<char>, sep: char)
    ensures
        split_on(s, sep).len() >= 1,
    decreases s.len(),
{
    if s.len() > 0 {
        lemma_split_on_nonempty(s.drop_last(), sep);
    }
}

/// `str::split(sep)`.
pub fn split_chars(s: &[char], sep: char) -> (r: Vec<Vec<char>>)
    ensures
        vv(r@) == split_on(s@, sep),
{
    let mut done: Vec<Vec<char>> = Vec::new();
    let mut cur: Vec<char> = Vec::new();
    let mut i: usize = 0;
    assert(s@.take(0) =~= Seq::<char>::empty());
    assert(vv(done@).push(cur@) =~= split_on(s@.take(0), sep));
    while i < s.len()
        invariant
            i <= s.len(),
            vv(done@).push(cur@) == split_on(s@.take(i as int), sep),
        decreases s.len() - i,
    {
        proof {
            lemma_take_push(s@, i as int);
            lemma_split_on_nonempty(s@.take(i as int), sep);
        }
        let c = s[i];
        if c == sep {
            let full = cur;
            done.push(full);
            cur = Vec::new();
            proof {
                assert(vv(done@).push(cur@) =~= split_on(s@.take(i + 1), sep));
            }
        } else {
            cur.push(c);
            proof {
                assert(vv(done@).push(cur@) =~= split_on(s@.take(i + 1), sep));
            }
        }
        i += 1;
    }
    done.push(cur);
    assert(s@.take(s.len() as int) =~= s@);
    assert(vv(done@) =~= split_on(s@, sep));
    done
}

proof fn lemma_split_either_nonempty(s: Seq<char>, a: char, b: char)
    ensures
        split_on_either(s, a, b).len() >= 1,
    decreases s.len(),
{
    if s.len() > 0 {
        lemma_split_either_nonempty(s.drop_last(), a, b);
    }
}

/// Split on either of two separator characters.
pub fn split_chars_either(s: &[char], a: char, b: char) -> (r: Vec<Vec<char>>)
    ensures
        vv(r@) == split_on_either(s@, a, b),
        r.len() >= 1,
{
    let mut done: Vec<Vec<char>> = Vec::new();
    let mut cur: Vec<char> = Vec::new();
    let mut i: usize = 0;
    assert(s@.take(0) =~= Seq::<char>::empty());
    assert(vv(done@).push(cur@) =~= split_on_either(s@.take(0), a, b));
    while i < s.len()
        invariant
            i <= s.len(),
            vv(done@).push(cur@) == split_on_either(s@.take(i as int), a, b),
        decreases s.len() - i,
    {
        proof {
            lemma_take_push(s@, i as int);
            lemma_split_either_nonempty(s@.take(i as int), a, b);
        }
        let c = s[i];
        if c == a || c == b {
            let full = cur;
            done.push(full);
            cur = Vec::new();
            proof {
                assert(vv(done@).push(cur@) =~= split_on_either(s@.take(i + 1), a, b));
            }
        } else {
            cur.push(c);
            proof {
                assert(vv(done@).push(cur@) =~= split_on_either(s@.take(i + 1), a, b));
            }
        }
        i += 1;
    }
    done.push(cur);
    assert(s@.take(s.len() as int) =~= s@);
    assert(vv(done@) =~= split_on_either(s@, a, b));
    done
}

/// `str::split_whitespace`.
pub fn words_of(s: &[char]) -> (r: Vec<Vec<char>>)
    ensures
        vv(r@) == words(s@),
{
    let mut done: Vec<Vec<char>> = Vec::new();
    let mut cur: Vec<char> = Vec::new();
    let mut in_word = false;
    let mut i: usize = 0;
    assert(s@.take(0) =~= Seq::<char>::empty());
    while i < s.len()
        invariant
            i <= s.len(),
            in_word == (i > 0 && !is_ws(s@[i - 1])),
            !in_word ==> cur@.len() == 0,
            in_word ==> vv(done@).push(cur@) == words(s@.take(i as int)),
            !in_word ==> vv(done@) == words(s@.take(i as int)),
        decreases s.len() - i,
    {
        proof {
            lemma_take_push(s@, i as int);
        }
        let c = s[i];
        let ws = is_whitespace(c);
        if ws {
            if in_word {
                let full = cur;
                done.push(full);
                cur = Vec::new();
            }
            in_word = false;
            proof {
                assert(words(s@.take(i + 1)) == words(s@.take(i as int)));
            }
        } else {
            cur.push(c);
            proof {
                let t = s@.take(i + 1);
                assert(t.len() >= 2 ==> t[t.len() - 2] == s@[i - 1]);
                if in_word {
                    assert(vv(done@).push(cur@) =~= words(t));
                } else {
                    assert(cur@ =~= seq![c]);
                    assert(vv(done@).push(cur@) =~= words(t));
                }
            }
            in_word = true;
        }
        i += 1;
    }
    if in_word {
        done.push(cur);
    }
    assert(s@.take(s.len() as int) =~= s@);
    done
}

proof fn lemma_lines_index(s: Seq<char>, i: int)
    requires
        0 <= i < lines(s).len(),
    ensures
        lines(s)[i] == (if i < split_on(s, '\n').len() - 1 {
            strip_cr(split_on(s, '\n')[i])
        } else {
            split_on(s, '\n')[i]
        }),
{
}

/// `str::lines`.
pub fn lines_of(s: &[char]) -> (r: Vec<Vec<char>>)
    ensures
        vv(r@) == lines(s@),
{
    let pieces = split_chars(s, '\n');
    proof {
        lemma_split_on_nonempty(s@, '\n');
    }
    let ghost p = split_on(s@, '\n');
    let n = pieces.len();
    assert(vv(pieces@).len() == n);
    let count = if pieces[n - 1].len() == 0 {
        assert(p.last() == pieces@[n - 1]@);
        n - 1
    } else {
        assert(p.last() == pieces@[n - 1]@);
        n
    };
    let mut r: Vec<Vec<char>> = Vec::new();
    let mut i: usize = 0;
    while i < count
        invariant
            count <= n,
            n == pieces.len(),
            p == vv(pieces@),
            p == split_on(s@, '\n'),
            p.len() == n,
            i <= count,
            vv(r@) == lines(s@).take(i as int),
            lines(s@).len() == count,
        decreases count - i,
    {
        let piece = &pieces[i];
        assert(piece@ == p[i as int]);
        let l = piece.len();
        let line = if i + 1 < n && l > 0 && piece[l - 1] == '\r' {
            sub_chars(piece.as_slice(), 0, l - 1)
        } else {
            sub_chars(piece.as_slice(), 0, l)
        };
        proof {
            assert(piece@.subrange(0, l as int) =~= piece@);
            assert(l > 0 ==> piece@.subrange(0, l - 1) =~= piece@.drop_last());
        }
        proof {
            lemma_lines_index(s@, i as int);
            if i + 1 < n {
                assert(lines(s@)[i as int] == strip_cr(p[i as int]));
                if l > 0 {
                    assert(piece@.last() == piece@[l - 1]);
                }
            } else {
                assert(lines(s@)[i as int] == p[i as int]);
            }
        }
        assert(line@ == lines(s@)[i as int]);
        let ghost old_r = r@;
        r.push(line);
        proof {
            assert(r@ == old_r.push(line));
            assert(vv(r@) =~= vv(old_r).push(line@));
            assert(lines(s@).take(i + 1) =~= lines(s@).take(i as int).push(lines(s@)[i as int]));
        }
        i += 1;
    }
    assert(lines(s@).take(count as int) =~= lines(s@));
    r
}

/// Pieces joined with a separator.
pub fn join_chars(parts: &Vec<Vec<char>>, sep: &[char]) -> (r: Vec<char>)
    ensures
        r@ == join(vv(parts@), sep@),
{
    let mut r: Vec<char> = Vec::new();
    let mut i: usize = 0;
    while i < parts.len()
        invariant
            i <= parts.len(),
            r@ == join(vv(parts@).take(i as int), sep@),
        decreases parts.len() - i,
    {
        let ghost before = r@;
        if i > 0 {
            let mut k: usize = 0;
            while k < sep.len()
                invariant
                    k <= sep.len(),
                    r@ == before + sep@.take(k as int),
                decreases sep.len() - k,
            {
                r.push(sep[k]);
                proof {
                    lemma_take_push(sep@, k as int);
                    assert(r@ =~= before + sep@.take(k + 1));
                }
                k += 1;
            }
            assert(sep@.take(sep.len() as int) =~= sep@);
        }
        let ghost mid = r@;
        let part = &parts[i];
        let mut k: usize = 0;
        while k < part.len()
            invariant
                k <= part.len(),
                r@ == mid + part@.take(k as int),
            decreases part.len() - k,
        {
            r.push(part[k]);
            proof {
                lemma_take_push(part@, k as int);
                assert(r@ =~= mid + part@.take(k + 1));
            }
            k += 1;
        }
        proof {
            assert(part@.take(part.len() as int) =~= part@);
            let t = vv(parts@).take(i + 1);
            assert(t.drop_last() =~= vv(parts@).take(i as int));
            assert(t.last() == part@);
            if i == 0 {
                assert(r@ =~= join(t, sep@));
            } else {
                assert(r@ =~= join(t, sep@));
            }
        }
        i += 1;
    }
    assert(vv(parts@).take(parts.len() as int) =~= vv(parts@));
    r
}

/// Remove every occurrence of `c`.
pub fn remove_all(s: &[char], c: char) -> (r: Vec<char>)
    ensures
        r@ == remove_char(s@, c),
{
    let mut r: Vec<char> = Vec::new();
    let mut i: usize = 0;
    while i < s.len()
        invariant
            i <= s.len(),
            r@ == remove_char(s@.take(i as int), c),
        decreases s.len() - i,
    {
        proof {
            lemma_take_push(s@, i as int);
            reveal(Seq::filter);
        }
        if s[i] != c {
            r.push(s[i]);
        }
        proof {
            assert(s@.take(i + 1).drop_last() == s@.take(i as int));
        }
        i += 1;
    }
    assert(s@.take(s.len() as int) =~= s@);
    r
}

/// Decimal representation of a `u64`, as `u64::to_string` prints it.
pub fn u64_to_decimal(n: u64) -> (r: Vec<char>)
    ensures
        r@ == decimal(n as nat),
{
    // digits are collected least significant first
    let mut digits: Vec<char> = Vec::new();
    let mut m: u64 = n;
    while m >= 10
        invariant
            decimal(n as nat) == decimal(m as nat) + digits@.reverse(),
        decreases m,
    {
        let d: u8 = (m % 10) as u8;
        let c: char = (48u8 + d) as char;
        let ghost old_digits = digits@;
        digits.push(c);
        proof {
            assert(c == digit_char((m % 10) as int));
            assert(decimal(m as nat) == decimal((m / 10) as nat).push(c));
            assert(digits@.reverse() =~= seq![c] + old_digits.reverse());
            assert(decimal((m / 10) as nat) + digits@.reverse() =~= decimal((m / 10) as nat).push(
                c,
            ) + old_digits.reverse());
        }
        m = m / 10;
    }
    let d: u8 = m as u8;
    let c: char = (48u8 + d) as char;
    let ghost old_digits = digits@;
    digits.push(c);
    proof {
        assert(c == digit_char(m as int));
        assert(decimal(m as nat) =~= seq![c]);
        assert(digits@.reverse() =~= seq![c] + old_digits.reverse());
    }
    let mut r: Vec<char> = Vec::new();
    let mut k: usize = digits.len();
    assert(digits@.skip(digits.len() as int).reverse() =~= Seq::<char>::empty());
    while k > 0
        invariant
            k <= digits.len(),
            r@ == digits@.skip(k as int).reverse(),
        decreases k,
    {
        k -= 1;
        r.push(digits[k]);
        proof {
            assert(r@ =~= digits@.skip(k as int).reverse());
        }
    }
    assert(digits@.skip(0) =~= digits@);
    r
}

/// Parses a string of decimal digits as `str::parse::<u64>` does.
pub fn parse_u64_digits(s: &[char]) -> (r: Option<u64>)
    ensures
        r == parse_digits_u64(s@),
{
    if s.len() == 0 {
        return None;
    }
    let mut acc: u64 = 0;
    let mut i: usize = 0;
    while i < s.len()
        invariant
            i <= s.len(),
            acc as nat == digits_value(s@.take(i as int)),
            all_digits(s@.take(i as int)),
        decreases s.len() - i,
    {
        proof {
            lemma_take_push(s@, i as int);
        }
        if !is_digit(s[i]) {
            assert(!all_digits(s@));
            return None;
        }
        let d: u64 = ((s[i] as u32) - 48) as u64;
        if acc > (u64::MAX - d) / 10 {
            proof {
                if all_digits(s@) {
                    lemma_digits_value_prefix_bound(s@, i + 1);
                    assert(digits_value(s@.take(i + 1)) == digits_value(s@.take(i as int)) * 10
                        + digit_value(s@[i as int]));
                    assert(acc * 10 + d > u64::MAX) by (nonlinear_arith)
                        requires
                            acc > (u64::MAX - d) / 10,
                            d <= 9,
                    ;
                }
            }
            return None;
        }
        proof {
            assert(acc * 10 + d <= u64::MAX) by (nonlinear_arith)
                requires
                    acc <= (u64::MAX - d) / 10,
                    d <= 9,
            ;
        }
        acc = acc * 10 + d;
        proof {
            assert(all_digits(s@.take(i + 1)));
        }
        i += 1;
    }
    assert(s@.take(s.len() as int) =~= s@);
    Some(acc)
}

/// Whether every character of `s` is a decimal digit.
pub fn all_digits_exec(s: &[char]) -> (r: bool)
    ensures
        r == all_digits(s@),
{
    let mut i: usize = 0;
    while i < s.len()
        invariant
            i <= s.len(),
            forall|k: int| 0 <= k < i ==> is_ascii_digit(#[trigger] s@[k]),
        decreases s.len() - i,
    {
        if !is_digit(s[i]) {
            return false;
        }
        i += 1;
    }
    true
}

proof fn lemma_digits_value_prefix_bound(s: Seq<char>, j: int)
    requires
        0 <= j <= s.len(),
        all_digits(s),
    ensures
        digits_value(s.take(j)) <= digits_value(s),
    decreases s.len() - j,
{
    if j < s.len() {
        lemma_digits_value_prefix_bound(s, j + 1);
        lemma_take_push(s, j);
        assert(digits_value(s.take(j + 1)) == digits_value(s.take(j)) * 10 + digit_value(s[j]));
        assert(digit_value(s[j]) >= 0);
        assert(digits_value(s.take(j)) <= digits_value(s.take(j)) * 10) by (nonlinear_arith);
    } else {
        assert(s.take(j) =~= s);
    }
}

/// Whether a list of strings holds `s`.
pub fn list_contains(list: &[String], s: &[char]) -> (r: bool)
    ensures
        r == sv(list@).contains(s@),
{
    let mut i: usize = 0;
    while i < list.len()
        invariant
            i <= list.len(),
            forall|j: int| 0 <= j < i ==> #[trigger] sv(list@)[j] != s@,
        decreases list.len() - i,
    {
        assert(sv(list@)[i as int] == list@[i as int]@);
        if eq_chars(chars_of(list[i].as_str()).as_slice(), s) {
            return true;
        }
        i += 1;
    }
    false
}

} // verus!

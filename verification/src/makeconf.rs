//! A minimal shell-variable scanner for `make.conf`.
//!
//! Handles `VAR="value"`, `VAR='value'` and `VAR=value`, multi-line quoted
//! values, backslash-newline continuations, `#` comments and several
//! assignments on one line.  Nothing is evaluated: `${VAR}` and command
//! substitutions stay as written.
use vstd::prelude::*;

use crate::strmap::StrMap;
use crate::text::{chars_of, is_alpha, is_ascii_alpha, is_ascii_digit, is_digit, is_whitespace,
    is_ws, string_of, sub_chars};

verus! {

pub open spec fn is_var_start(c: char) -> bool {
    c == '_' || is_ascii_alpha(c)
}

pub open spec fn is_var_char(c: char) -> bool {
    c == '_' || is_ascii_alpha(c) || is_ascii_digit(c)
}

/// Characters that a backslash escapes inside double quotes.
pub open spec fn is_dq_escapable(c: char) -> bool {
    c == '\\' || c == '"' || c == '$' || c == '`'
}

/// First position at or after `i` that is not white space.
pub open spec fn skip_ws_from(s: Seq<char>, i: int) -> int
    decreases s.len() - i,
{
    if 0 <= i < s.len() && is_ws(s[i]) {
        skip_ws_from(s, i + 1)
    } else {
        i
    }
}

/// First position at or after `i` that is not white space other than a newline.
pub open spec fn skip_inline_ws(s: Seq<char>, i: int) -> int
    decreases s.len() - i,
{
    if 0 <= i < s.len() && is_ws(s[i]) && s[i] != '\n' {
        skip_inline_ws(s, i + 1)
    } else {
        i
    }
}

/// Position of the newline ending the line that contains `i` (or the end).
pub open spec fn line_end(s: Seq<char>, i: int) -> int
    decreases s.len() - i,
{
    if 0 <= i < s.len() && s[i] != '\n' {
        line_end(s, i + 1)
    } else {
        i
    }
}

/// End of the variable name that continues at `i`.
pub open spec fn key_end(s: Seq<char>, i: int) -> int
    decreases s.len() - i,
{
    if 0 <= i < s.len() && is_var_char(s[i]) {
        key_end(s, i + 1)
    } else {
        i
    }
}

/// A quoted value read from `i` (just after the opening quote `q`): its
/// text, the position after it, and whether the closing quote was found.
pub open spec fn quoted(s: Seq<char>, i: int, q: char) -> (Seq<char>, int, bool)
    decreases s.len() - i,
{
    if i < 0 || i >= s.len() {
        (Seq::<char>::empty(), i, false)
    } else {
        let ch = s[i];
        if ch == q {
            (Seq::<char>::empty(), i + 1, true)
        } else if ch == '\\' && i + 1 < s.len() && s[i + 1] == '\n' {
            quoted(s, i + 2, q)
        } else if ch == '\\' && q == '"' && i + 1 < s.len() && is_dq_escapable(s[i + 1]) {
            let r = quoted(s, i + 2, q);
            (seq![s[i + 1]] + r.0, r.1, r.2)
        } else {
            let r = quoted(s, i + 1, q);
            (seq![ch] + r.0, r.1, r.2)
        }
    }
}

/// An unquoted value read from `i`: its text and the position after it.
pub open spec fn bare(s: Seq<char>, i: int) -> (Seq<char>, int)
    decreases s.len() - i,
{
    if i < 0 || i >= s.len() {
        (Seq::<char>::empty(), i)
    } else {
        let ch = s[i];
        if ch == '\\' && i + 1 < s.len() && s[i + 1] == '\n' {
            bare(s, i + 2)
        } else if ch == '\n' || is_ws(ch) || ch == '#' {
            (Seq::<char>::empty(), i)
        } else {
            let r = bare(s, i + 1);
            (seq![ch] + r.0, r.1)
        }
    }
}

/// The value that follows `=` (white space at `n` already skipped) and the
/// position after it.  An unterminated quoted value keeps its opening quote.
pub open spec fn value_at(s: Seq<char>, n: int) -> (Seq<char>, int) {
    if 0 <= n < s.len() && (s[n] == '"' || s[n] == '\'') {
        let r = quoted(s, n + 1, s[n]);
        if r.2 {
            (r.0, r.1)
        } else {
            (seq![s[n]] + r.0, r.1)
        }
    } else {
        bare(s, n)
    }
}

pub proof fn lemma_skip_ws(s: Seq<char>, i: int)
    requires
        0 <= i <= s.len(),
    ensures
        i <= skip_ws_from(s, i) <= s.len(),
        skip_ws_from(s, i) < s.len() ==> !is_ws(s[skip_ws_from(s, i)]),
    decreases s.len() - i,
{
    if i < s.len() && is_ws(s[i]) {
        lemma_skip_ws(s, i + 1);
    }
}

pub proof fn lemma_skip_inline_ws(s: Seq<char>, i: int)
    requires
        0 <= i <= s.len(),
    ensures
        i <= skip_inline_ws(s, i) <= s.len(),
    decreases s.len() - i,
{
    if i < s.len() && is_ws(s[i]) && s[i] != '\n' {
        lemma_skip_inline_ws(s, i + 1);
    }
}

pub proof fn lemma_line_end(s: Seq<char>, i: int)
    requires
        0 <= i <= s.len(),
    ensures
        i <= line_end(s, i) <= s.len(),
        i < s.len() && s[i] != '\n' ==> line_end(s, i) > i,
    decreases s.len() - i,
{
    if i < s.len() && s[i] != '\n' {
        lemma_line_end(s, i + 1);
    }
}

pub proof fn lemma_key_end(s: Seq<char>, i: int)
    requires
        0 <= i <= s.len(),
    ensures
        i <= key_end(s, i) <= s.len(),
    decreases s.len() - i,
{
    if i < s.len() && is_var_char(s[i]) {
        lemma_key_end(s, i + 1);
    }
}

pub proof fn lemma_quoted(s: Seq<char>, i: int, q: char)
    requires
        0 <= i <= s.len(),
    ensures
        i <= quoted(s, i, q).1 <= s.len(),
    decreases s.len() - i,
{
    if i < s.len() {
        let ch = s[i];
        if ch == q {
        } else if ch == '\\' && i + 1 < s.len() && s[i + 1] == '\n' {
            lemma_quoted(s, i + 2, q);
        } else if ch == '\\' && q == '"' && i + 1 < s.len() && is_dq_escapable(s[i + 1]) {
            lemma_quoted(s, i + 2, q);
        } else {
            lemma_quoted(s, i + 1, q);
        }
    }
}

pub proof fn lemma_bare(s: Seq<char>, i: int)
    requires
        0 <= i <= s.len(),
    ensures
        i <= bare(s, i).1 <= s.len(),
    decreases s.len() - i,
{
    if i < s.len() {
        let ch = s[i];
        if ch == '\\' && i + 1 < s.len() && s[i + 1] == '\n' {
            lemma_bare(s, i + 2);
        } else if ch == '\n' || is_ws(ch) || ch == '#' {
        } else {
            lemma_bare(s, i + 1);
        }
    }
}

pub proof fn lemma_value_at(s: Seq<char>, n: int)
    requires
        0 <= n <= s.len(),
    ensures
        n <= value_at(s, n).1 <= s.len(),
{
    if n < s.len() && (s[n] == '"' || s[n] == '\'') {
        lemma_quoted(s, n + 1, s[n]);
    } else {
        lemma_bare(s, n);
    }
}

/// What the scanner does at position `i`.
pub enum Step {
    /// Input exhausted.
    Done,
    /// Nothing assigned; scanning resumes at the position given.
    Skip(int),
    /// `key=value` read; scanning resumes at the position given.
    Assign(Seq<char>, Seq<char>, int),
}

/// One step of the scanner from position `i`.
pub open spec fn step_at(s: Seq<char>, i: int) -> Step {
    let j = skip_ws_from(s, i);
    if j >= s.len() {
        Step::Done
    } else if s[j] == '#' || !is_var_start(s[j]) {
        Step::Skip(line_end(s, j))
    } else {
        let k = key_end(s, j + 1);
        let key = s.subrange(j, k);
        let m = skip_inline_ws(s, k);
        if m >= s.len() || s[m] != '=' {
            Step::Skip(line_end(s, m))
        } else {
            let n = skip_inline_ws(s, m + 1);
            let (value, after) = value_at(s, n);
            let p = skip_inline_ws(s, after);
            let next = if p < s.len() && s[p] == '#' {
                line_end(s, p)
            } else {
                p
            };
            Step::Assign(key, value, next)
        }
    }
}

pub proof fn lemma_step_progress(s: Seq<char>, i: int)
    requires
        0 <= i <= s.len(),
    ensures
        match step_at(s, i) {
            Step::Done => true,
            Step::Skip(p) => i < p <= s.len(),
            Step::Assign(_, _, p) => i < p <= s.len(),
        },
{
    lemma_skip_ws(s, i);
    let j = skip_ws_from(s, i);
    if j < s.len() {
        lemma_line_end(s, j);
        if !(s[j] == '#' || !is_var_start(s[j])) {
            lemma_key_end(s, j + 1);
            let k = key_end(s, j + 1);
            lemma_skip_inline_ws(s, k);
            let m = skip_inline_ws(s, k);
            lemma_line_end(s, m);
            if m < s.len() && s[m] == '=' {
                lemma_skip_inline_ws(s, m + 1);
                let n = skip_inline_ws(s, m + 1);
                lemma_value_at(s, n);
                let after = value_at(s, n).1;
                lemma_skip_inline_ws(s, after);
                let p = skip_inline_ws(s, after);
                lemma_line_end(s, p);
            }
        } else {
            assert(s[j] != '\n') by {
                if s[j] == '\n' {
                    assert(is_ws(s[j]));
                }
            }
        }
    }
}

/// The assignments found from position `i` on, in order.
pub open spec fn assignments(s: Seq<char>, i: int) -> Seq<(Seq<char>, Seq<char>)>
    decreases s.len() - i,
{
    if i < 0 || i > s.len() {
        Seq::empty()
    } else {
        proof {
            lemma_step_progress(s, i);
        }
        match step_at(s, i) {
            Step::Done => Seq::empty(),
            Step::Skip(p) => assignments(s, p),
            Step::Assign(key, value, p) => seq![(key, value)] + assignments(s, p),
        }
    }
}

/// The value that the last assignment to `key` gives it.
pub open spec fn last_value(a: Seq<(Seq<char>, Seq<char>)>, key: Seq<char>) -> Option<Seq<char>>
    decreases a.len(),
{
    if a.len() == 0 {
        None
    } else if a.last().0 == key {
        Some(a.last().1)
    } else {
        last_value(a.drop_last(), key)
    }
}

pub open spec fn opt_string_view(o: Option<String>) -> Option<Seq<char>> {
    match o {
        Some(s) => Some(s@),
        None => None,
    }
}

// ───────────────────────── exec ─────────────────────────

fn is_var_start_exec(c: char) -> (r: bool)
    ensures
        r == is_var_start(c),
{
    c == '_' || is_alpha(c)
}

fn is_var_char_exec(c: char) -> (r: bool)
    ensures
        r == is_var_char(c),
{
    c == '_' || is_alpha(c) || is_digit(c)
}

fn skip_ws_exec(s: &[char], i: usize) -> (r: usize)
    requires
        i <= s.len(),
    ensures
        r as int == skip_ws_from(s@, i as int),
{
    let mut j = i;
    while j < s.len() && is_whitespace(s[j])
        invariant
            i <= j <= s.len(),
            skip_ws_from(s@, j as int) == skip_ws_from(s@, i as int),
        decreases s.len() - j,
    {
        j += 1;
    }
    j
}

fn skip_inline_ws_exec(s: &[char], i: usize) -> (r: usize)
    requires
        i <= s.len(),
    ensures
        r as int == skip_inline_ws(s@, i as int),
{
    let mut j = i;
    while j < s.len() && is_whitespace(s[j]) && s[j] != '\n'
        invariant
            i <= j <= s.len(),
            skip_inline_ws(s@, j as int) == skip_inline_ws(s@, i as int),
        decreases s.len() - j,
    {
        j += 1;
    }
    j
}

fn line_end_exec(s: &[char], i: usize) -> (r: usize)
    requires
        i <= s.len(),
    ensures
        r as int == line_end(s@, i as int),
{
    let mut j = i;
    while j < s.len() && s[j] != '\n'
        invariant
            i <= j <= s.len(),
            line_end(s@, j as int) == line_end(s@, i as int),
        decreases s.len() - j,
    {
        j += 1;
    }
    j
}

fn key_end_exec(s: &[char], i: usize) -> (r: usize)
    requires
        i <= s.len(),
    ensures
        r as int == key_end(s@, i as int),
{
    let mut j = i;
    while j < s.len() && is_var_char_exec(s[j])
        invariant
            i <= j <= s.len(),
            key_end(s@, j as int) == key_end(s@, i as int),
        decreases s.len() - j,
    {
        j += 1;
    }
    j
}

fn quoted_exec(s: &[char], i: usize, q: char) -> (r: (Vec<char>, usize, bool))
    requires
        i <= s.len(),
    ensures
        (r.0@, r.1 as int, r.2) == quoted(s@, i as int, q),
{
    let mut value: Vec<char> = Vec::new();
    let mut j = i;
    proof {
        lemma_quoted(s@, i as int, q);
    }
    while j < s.len()
        invariant
            i <= j <= s.len(),
            quoted(s@, i as int, q).0 == value@ + quoted(s@, j as int, q).0,
            quoted(s@, i as int, q).1 == quoted(s@, j as int, q).1,
            quoted(s@, i as int, q).2 == quoted(s@, j as int, q).2,
        decreases s.len() - j,
    {
        let ch = s[j];
        if ch == q {
            proof {
                assert(value@ + Seq::<char>::empty() =~= value@);
            }
            return (value, j + 1, true);
        }
        if ch == '\\' && j + 1 < s.len() && s[j + 1] == '\n' {
            j += 2;
        } else if ch == '\\' && q == '"' && j + 1 < s.len() && (s[j + 1] == '\\' || s[j + 1]
            == '"' || s[j + 1] == '$' || s[j + 1] == '`') {
            let ghost before = value@;
            value.push(s[j + 1]);
            proof {
                assert(before + (seq![s@[j + 1]] + quoted(s@, j + 2, q).0) =~= value@ + quoted(
                    s@,
                    j + 2,
                    q,
                ).0);
            }
            j += 2;
        } else {
            let ghost before = value@;
            value.push(ch);
            proof {
                assert(before + (seq![ch] + quoted(s@, j + 1, q).0) =~= value@ + quoted(
                    s@,
                    j + 1,
                    q,
                ).0);
            }
            j += 1;
        }
    }
    proof {
        assert(value@ + Seq::<char>::empty() =~= value@);
    }
    (value, j, false)
}

fn bare_exec(s: &[char], i: usize) -> (r: (Vec<char>, usize))
    requires
        i <= s.len(),
    ensures
        (r.0@, r.1 as int) == bare(s@, i as int),
{
    let mut value: Vec<char> = Vec::new();
    let mut j = i;
    while j < s.len()
        invariant
            i <= j <= s.len(),
            bare(s@, i as int).0 == value@ + bare(s@, j as int).0,
            bare(s@, i as int).1 == bare(s@, j as int).1,
        decreases s.len() - j,
    {
        let ch = s[j];
        if ch == '\\' && j + 1 < s.len() && s[j + 1] == '\n' {
            j += 2;
        } else if ch == '\n' || is_whitespace(ch) || ch == '#' {
            proof {
                assert(value@ + Seq::<char>::empty() =~= value@);
            }
            return (value, j);
        } else {
            let ghost before = value@;
            value.push(ch);
            proof {
                assert(before + (seq![ch] + bare(s@, j + 1).0) =~= value@ + bare(s@, j + 1).0);
            }
            j += 1;
        }
    }
    proof {
        assert(value@ + Seq::<char>::empty() =~= value@);
    }
    (value, j)
}

fn value_at_exec(s: &[char], n: usize) -> (r: (Vec<char>, usize))
    requires
        n <= s.len(),
    ensures
        (r.0@, r.1 as int) == value_at(s@, n as int),
{
    if n < s.len() && (s[n] == '"' || s[n] == '\'') {
        let q = s[n];
        let (v, end, terminated) = quoted_exec(s, n + 1, q);
        if terminated {
            (v, end)
        } else {
            let mut w: Vec<char> = Vec::new();
            w.push(q);
            crate::text::append_chars(&mut w, v.as_slice());
            assert(w@ =~= seq![q] + v@);
            (w, end)
        }
    } else {
        bare_exec(s, n)
    }
}

/// One scanner step from `i`: `None` when the input is exhausted, else the
/// assignment read (if any) and the position to resume from.
fn step_exec(s: &[char], i: usize) -> (r: Option<(Option<(Vec<char>, Vec<char>)>, usize)>)
    requires
        i <= s.len(),
    ensures
        match r {
            None => step_at(s@, i as int) is Done,
            Some((None, p)) => step_at(s@, i as int) == Step::Skip(p as int),
            Some((Some((k, v)), p)) => step_at(s@, i as int) == Step::Assign(k@, v@, p as int),
        },
{
    proof {
        lemma_skip_ws(s@, i as int);
    }
    let j = skip_ws_exec(s, i);
    if j >= s.len() {
        return None;
    }
    if s[j] == '#' || !is_var_start_exec(s[j]) {
        return Some((None, line_end_exec(s, j)));
    }
    proof {
        lemma_key_end(s@, j + 1);
    }
    let k = key_end_exec(s, j + 1);
    let key = sub_chars(s, j, k);
    proof {
        lemma_skip_inline_ws(s@, k as int);
    }
    let m = skip_inline_ws_exec(s, k);
    if m >= s.len() || s[m] != '=' {
        return Some((None, line_end_exec(s, m)));
    }
    proof {
        lemma_skip_inline_ws(s@, m + 1);
    }
    let n = skip_inline_ws_exec(s, m + 1);
    proof {
        lemma_value_at(s@, n as int);
    }
    let (value, after) = value_at_exec(s, n);
    proof {
        lemma_skip_inline_ws(s@, after as int);
    }
    let p = skip_inline_ws_exec(s, after);
    let next = if p < s.len() && s[p] == '#' {
        line_end_exec(s, p)
    } else {
        p
    };
    Some((Some((key, value)), next))
}

/// Minimalist shell variable parser for `make.conf`.
///
/// Returns each variable with the value of its last assignment.
pub fn parse_make_conf_vars(content: &str) -> (r: StrMap<String>)
    ensures
        r.wf(),
        forall|k: Seq<char>|
            #[trigger] opt_string_view(r.lookup(k)) == last_value(assignments(content@, 0), k),
        forall|k: Seq<char>|
            #[trigger] r.has_key(k) == last_value(assignments(content@, 0), k).is_some(),
{
    let chars = chars_of(content);
    let s = chars.as_slice();
    let mut vars: StrMap<String> = StrMap::new();
    let ghost all = assignments(s@, 0);
    let ghost mut done: Seq<(Seq<char>, Seq<char>)> = Seq::empty();
    let mut index: usize = 0;
    proof {
        assert(done + all =~= all);
    }
    loop
        invariant
            s@ == content@,
            index <= s.len(),
            vars.wf(),
            all == assignments(s@, 0),
            done + assignments(s@, index as int) == all,
            forall|k: Seq<char>| #[trigger] opt_string_view(vars.lookup(k)) == last_value(done, k),
            forall|k: Seq<char>| #[trigger] vars.has_key(k) == last_value(done, k).is_some(),
        ensures
            vars.wf(),
            done == assignments(content@, 0),
            forall|k: Seq<char>| #[trigger] opt_string_view(vars.lookup(k)) == last_value(done, k),
            forall|k: Seq<char>| #[trigger] vars.has_key(k) == last_value(done, k).is_some(),
        decreases s.len() - index,
    {
        proof {
            lemma_step_progress(s@, index as int);
        }
        match step_exec(s, index) {
            None => {
                proof {
                    assert(assignments(s@, index as int) =~= Seq::<(Seq<char>, Seq<char>)>::empty());
                    assert(done =~= all);
                }
                break;
            },
            Some((None, p)) => {
                proof {
                    assert(assignments(s@, index as int) == assignments(s@, p as int));
                }
                index = p;
            },
            Some((Some((k, v)), p)) => {
                let ghost kv = k@;
                let ghost vv = v@;
                let ks = string_of(k.as_slice());
                let vs = string_of(v.as_slice());
                vars.insert(ks, vs);
                proof {
                    assert(assignments(s@, index as int) == seq![(kv, vv)] + assignments(
                        s@,
                        p as int,
                    ));
                    let nd = done.push((kv, vv));
                    assert(nd + assignments(s@, p as int) =~= done + (seq![(kv, vv)]
                        + assignments(s@, p as int)));
                    assert(nd.drop_last() =~= done);
                    done = nd;
                }
                index = p;
            },
        }
    }
    vars
}

} // verus!

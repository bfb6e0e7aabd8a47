//! W3C trace context: reading a `traceparent` header, and writing one for
//! fresh trace and span ids.
use vstd::prelude::*;

use crate::blob_store::hex_digit;
use crate::text::{
    ascii_lower, ascii_lower_seq, chars_of, eq_chars, is_ascii_hex, is_ws, split_chars, split_on,
    string_of, trim, trim_chars, trim_end, trim_start, vv,
};

verus! {

/// The header that carries the trace context.
pub const TRACEPARENT_HEADER: &'static str = "traceparent";

/// A trace context: the trace id and the `traceparent` value that carries
/// it.
#[derive(Debug, Clone, PartialEq, Eq)]
pub struct TraceContext {
    pub trace_id: String,
    pub traceparent: String,
}

pub open spec fn all_hex(s: Seq<char>) -> bool {
    forall|i: int| 0 <= i < s.len() ==> is_ascii_hex(#[trigger] s[i])
}

pub open spec fn all_zero(s: Seq<char>) -> bool {
    forall|i: int| 0 <= i < s.len() ==> #[trigger] s[i] == '0'
}

/// The trace id and normalized `traceparent` of a header value: trimmed
/// and lower-cased, it must be four `-`-separated fields, version `00`, a
/// trace id of 32 hex digits and a span id of 16, neither all zeros, and
/// two hex digits of flags.
pub open spec fn parse_traceparent(t: Seq<char>) -> Option<(Seq<char>, Seq<char>)> {
    let n = ascii_lower_seq(trim(t));
    let p = split_on(n, '-');
    if p.len() == 4 && p[0] == "00"@ && p[1].len() == 32 && p[2].len() == 16 && p[3].len() == 2
        && !all_zero(p[1]) && !all_zero(p[2]) && all_hex(p[1]) && all_hex(p[2]) && all_hex(p[3]) {
        Some((p[1], "00-"@ + p[1] + "-"@ + p[2] + "-"@ + p[3]))
    } else {
        None
    }
}

fn all_hex_exec(s: &[char]) -> (r: bool)
    ensures
        r == all_hex(s@),
{
    let mut i: usize = 0;
    while i < s.len()
        invariant
            i <= s.len(),
            forall|j: int| 0 <= j < i ==> is_ascii_hex(#[trigger] s@[j]),
        decreases s.len() - i,
    {
        if !crate::text::is_hex_digit(s[i]) {
            return false;
        }
        i += 1;
    }
    true
}

fn all_zero_exec(s: &[char]) -> (r: bool)
    ensures
        r == all_zero(s@),
{
    let mut i: usize = 0;
    while i < s.len()
        invariant
            i <= s.len(),
            forall|j: int| 0 <= j < i ==> #[trigger] s@[j] == '0',
        decreases s.len() - i,
    {
        if s[i] != '0' {
            return false;
        }
        i += 1;
    }
    true
}

/// Reads a `traceparent` header value.
pub fn parse_trace_context(traceparent: &str) -> (r: Option<TraceContext>)
    ensures
        match parse_traceparent(traceparent@) {
            Some((id, tp)) => r matches Some(c) && c.trace_id@ == id && c.traceparent@ == tp,
            None => r is None,
        },
{
    let t = trim_chars(chars_of(traceparent).as_slice());
    let n = crate::text::lower_chars(&t);
    let p = split_chars(n.as_slice(), '-');
    proof {
        crate::text::lemma_split_on_nonempty(n@, '-');
    }
    if p.len() != 4 {
        return None;
    }
    assert(vv(p@)[0] == p@[0]@ && vv(p@)[1] == p@[1]@ && vv(p@)[2] == p@[2]@ && vv(p@)[3] == p@[3]@);
    let ok = eq_chars(p[0].as_slice(), chars_of("00").as_slice()) && p[1].len() == 32 && p[2].len()
        == 16 && p[3].len() == 2 && !all_zero_exec(p[1].as_slice()) && !all_zero_exec(
        p[2].as_slice(),
    ) && all_hex_exec(p[1].as_slice()) && all_hex_exec(p[2].as_slice()) && all_hex_exec(
        p[3].as_slice(),
    );
    if !ok {
        return None;
    }
    let mut tp = chars_of("00-");
    crate::text::append_chars(&mut tp, p[1].as_slice());
    crate::text::append_chars(&mut tp, chars_of("-").as_slice());
    crate::text::append_chars(&mut tp, p[2].as_slice());
    crate::text::append_chars(&mut tp, chars_of("-").as_slice());
    crate::text::append_chars(&mut tp, p[3].as_slice());
    Some(TraceContext { trace_id: string_of(p[1].as_slice()), traceparent: string_of(tp.as_slice()) })
}

/// The `n` lower-case hex digits of `v`, most significant first (`{:0n$x}`
/// for a value below `16^n`).
pub open spec fn hex_fixed(v: nat, n: nat) -> Seq<char>
    decreases n,
{
    if n == 0 {
        Seq::empty()
    } else {
        hex_fixed(v / 16, (n - 1) as nat).push(hex_digit((v % 16) as int))
    }
}

fn hex_char(d: u128) -> (c: char)
    requires
        d < 16,
    ensures
        c == hex_digit(d as int),
{
    let b = d as u8;
    if b < 10 {
        (b + 48) as char
    } else {
        (b + 87) as char
    }
}

fn hex_fixed_exec(v: u128, n: usize) -> (r: Vec<char>)
    requires
        n <= 32,
    ensures
        r@ == hex_fixed(v as nat, n as nat),
    decreases n,
{
    if n == 0 {
        Vec::new()
    } else {
        let mut r = hex_fixed_exec(v / 16, n - 1);
        r.push(hex_char(v % 16));
        r
    }
}

/// The trace context of a fresh trace and span, from their random ids:
/// the trace id as 32 hex digits, and `00-<trace id>-<span id>-01` with
/// the span id as 16.
pub fn new_trace_context(trace_id: u128, span_id: u64) -> (r: TraceContext)
    ensures
        r.trace_id@ == hex_fixed(trace_id as nat, 32),
        r.traceparent@ == "00-"@ + hex_fixed(trace_id as nat, 32) + "-"@ + hex_fixed(
            span_id as nat,
            16,
        ) + "-01"@,
{
    let t = hex_fixed_exec(trace_id, 32);
    let s = hex_fixed_exec(span_id as u128, 16);
    let mut tp = chars_of("00-");
    crate::text::append_chars(&mut tp, t.as_slice());
    crate::text::append_chars(&mut tp, chars_of("-").as_slice());
    crate::text::append_chars(&mut tp, s.as_slice());
    crate::text::append_chars(&mut tp, chars_of("-01").as_slice());
    TraceContext { trace_id: string_of(t.as_slice()), traceparent: string_of(tp.as_slice()) }
}

/// The trace context of a request: its `traceparent` header when that
/// reads as one, else the fresh one.
pub fn request_trace_context(header: Option<&str>, fresh: TraceContext) -> (r: TraceContext)
    ensures
        match header {
            Some(h) => match parse_traceparent(h@) {
                Some((id, tp)) => r.trace_id@ == id && r.traceparent@ == tp,
                None => r == fresh,
            },
            None => r == fresh,
        },
{
    match header {
        Some(h) => match parse_trace_context(h) {
            Some(c) => c,
            None => fresh,
        },
        None => fresh,
    }
}

/// A character of a generated field: a lower-case hex digit.
pub open spec fn plain_hex(c: char) -> bool {
    is_ascii_hex(c) && !is_ws(c) && c != '-' && ascii_lower(c) == c
}

pub open spec fn pow16(n: nat) -> nat
    decreases n,
{
    if n == 0 {
        1
    } else {
        16 * pow16((n - 1) as nat)
    }
}

proof fn lemma_hex_fixed_chars(v: nat, n: nat)
    ensures
        hex_fixed(v, n).len() == n,
        forall|i: int| 0 <= i < n ==> plain_hex(#[trigger] hex_fixed(v, n)[i]),
    decreases n,
{
    if n > 0 {
        lemma_hex_fixed_chars(v / 16, (n - 1) as nat);
        let d = (v % 16) as int;
        let c = hex_digit(d);
        assert(0 <= d < 16);
        if d < 10 {
            assert(c as u32 == d + 48);
        } else {
            assert(c as u32 == d + 87);
        }
        assert(plain_hex(c));
        assert forall|i: int| 0 <= i < n implies plain_hex(#[trigger] hex_fixed(v, n)[i]) by {
            if i < n - 1 {
                assert(hex_fixed(v, n)[i] == hex_fixed(v / 16, (n - 1) as nat)[i]);
            }
        }
    }
}

proof fn lemma_hex_fixed_nonzero(v: nat, n: nat)
    requires
        0 < v < pow16(n),
    ensures
        !all_zero(hex_fixed(v, n)),
    decreases n,
{
    lemma_hex_fixed_chars(v, n);
    if n == 0 {
        assert(false);
    } else {
        let d = (v % 16) as int;
        if d != 0 {
            let c = hex_digit(d);
            if d < 10 {
                assert(c as u32 == d + 48);
            } else {
                assert(c as u32 == d + 87);
            }
            assert(hex_fixed(v, n)[n - 1] == c);
        } else {
            let q = v / 16;
            let pn = pow16((n - 1) as nat);
            assert(q > 0 && q < pn) by (nonlinear_arith)
                requires
                    v > 0,
                    v % 16 == 0,
                    v < 16 * pn,
                    q == v / 16,
            ;
            lemma_hex_fixed_nonzero(q, (n - 1) as nat);
            let j = choose|j: int| 0 <= j < hex_fixed(q, (n - 1) as nat).len() && #[trigger] hex_fixed(q, (n - 1) as nat)[j] != '0';
            assert(hex_fixed(v, n)[j] == hex_fixed(q, (n - 1) as nat)[j]);
        }
    }
}

proof fn lemma_split_plain(a: Seq<char>, b: Seq<char>, sep: char)
    requires
        forall|i: int| 0 <= i < b.len() ==> #[trigger] b[i] != sep,
    ensures
        split_on(a + b, sep) == split_on(a, sep).update(
            split_on(a, sep).len() - 1,
            split_on(a, sep).last() + b,
        ),
        split_on(a + b, sep).len() == split_on(a, sep).len(),
    decreases b.len(),
{
    crate::text::lemma_split_on_nonempty(a, sep);
    if b.len() == 0 {
        assert(a + b =~= a);
        assert(split_on(a, sep).last() + b =~= split_on(a, sep).last());
        assert(split_on(a, sep).update(split_on(a, sep).len() - 1, split_on(a, sep).last())
            =~= split_on(a, sep));
    } else {
        lemma_split_plain(a, b.drop_last(), sep);
        assert((a + b).drop_last() =~= a + b.drop_last());
        assert((a + b).last() == b.last());
        let p = split_on(a, sep);
        let q = split_on(a + b.drop_last(), sep);
        assert(q.last() == p.last() + b.drop_last());
        assert(p.last() + b.drop_last() + seq![b.last()] =~= p.last() + b);
        assert(q.last().push(b.last()) =~= p.last() + b);
        assert(q.len() == p.len());
        assert forall|i: int| 0 <= i < p.len() - 1 implies q[i] == p[i] by {}
        assert(split_on(a + b, sep) =~= q.update(q.len() - 1, q.last().push(b.last())));
        assert(q.update(q.len() - 1, q.last().push(b.last())) =~= p.update(p.len() - 1, p.last() + b));
    }
}

proof fn lemma_split_field(a: Seq<char>, b: Seq<char>, sep: char)
    requires
        forall|i: int| 0 <= i < b.len() ==> #[trigger] b[i] != sep,
    ensures
        split_on(a + seq![sep] + b, sep) == split_on(a, sep).push(b),
{
    let a1 = a + seq![sep];
    assert(a1.drop_last() =~= a);
    assert(a1.last() == sep);
    assert(split_on(a1, sep) == split_on(a, sep).push(Seq::<char>::empty()));
    lemma_split_plain(a1, b, sep);
    assert(Seq::<char>::empty() + b =~= b);
    assert(split_on(a1, sep).update(split_on(a1, sep).len() - 1, split_on(a1, sep).last() + b)
        =~= split_on(a, sep).push(b));
}

/// A generated trace context reads back as itself: for non-zero ids, its
/// `traceparent` parses to the same trace id and `traceparent`.
pub proof fn law_generated_trace_context_parses(trace_id: u128, span_id: u64)
    requires
        trace_id != 0,
        span_id != 0,
    ensures
        parse_traceparent(
            "00-"@ + hex_fixed(trace_id as nat, 32) + "-"@ + hex_fixed(span_id as nat, 16) + "-01"@,
        ) == Some((
            hex_fixed(trace_id as nat, 32),
            "00-"@ + hex_fixed(trace_id as nat, 32) + "-"@ + hex_fixed(span_id as nat, 16) + "-01"@,
        )),
{
    let h = hex_fixed(trace_id as nat, 32);
    let s = hex_fixed(span_id as nat, 16);
    reveal_strlit("00-");
    reveal_strlit("-");
    reveal_strlit("-01");
    reveal_strlit("00");
    reveal_strlit("01");
    lemma_hex_fixed_chars(trace_id as nat, 32);
    lemma_hex_fixed_chars(span_id as nat, 16);
    reveal_with_fuel(pow16, 33);
    assert(pow16(32) == 340282366920938463463374607431768211456nat);
    assert(pow16(16) == 18446744073709551616nat);
    lemma_hex_fixed_nonzero(trace_id as nat, 32);
    lemma_hex_fixed_nonzero(span_id as nat, 16);
    let tp = "00-"@ + h + "-"@ + s + "-01"@;
    let z = "00"@;
    let o = "01"@;
    assert(tp =~= z + seq!['-'] + h + seq!['-'] + s + seq!['-'] + o);
    // The value is already trimmed and lower case.
    assert(tp[0] == '0');
    assert(tp.last() == '1');
    assert(trim_start(tp) == tp);
    assert(trim_end(tp) == tp);
    assert forall|i: int| 0 <= i < tp.len() implies ascii_lower(#[trigger] tp[i]) == tp[i] by {
        if 3 <= i < 35 {
            assert(tp[i] == h[i - 3]);
        } else if 36 <= i < 52 {
            assert(tp[i] == s[i - 36]);
        }
    }
    assert(ascii_lower_seq(tp) =~= tp);
    // Its fields are the four pieces.
    assert(split_on(z, '-') =~= seq![z]) by {
        lemma_split_plain(Seq::<char>::empty(), z, '-');
        assert(Seq::<char>::empty() + z =~= z);
        assert(split_on(Seq::<char>::empty(), '-') =~= seq![Seq::<char>::empty()]);
    }
    assert forall|i: int| 0 <= i < h.len() implies #[trigger] h[i] != '-' by {
        assert(plain_hex(h[i]));
    }
    assert forall|i: int| 0 <= i < s.len() implies #[trigger] s[i] != '-' by {
        assert(plain_hex(s[i]));
    }
    lemma_split_field(z, h, '-');
    lemma_split_field(z + seq!['-'] + h, s, '-');
    lemma_split_field(z + seq!['-'] + h + seq!['-'] + s, o, '-');
    let p = split_on(tp, '-');
    assert(p =~= seq![z, h, s, o]);
    assert forall|i: int| 0 <= i < h.len() implies is_ascii_hex(#[trigger] h[i]) by {
        assert(plain_hex(h[i]));
    }
    assert forall|i: int| 0 <= i < s.len() implies is_ascii_hex(#[trigger] s[i]) by {
        assert(plain_hex(s[i]));
    }
    assert(all_hex(o));
}

} // verus!

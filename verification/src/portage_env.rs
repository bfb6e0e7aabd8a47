//! The effective make.conf: the variables of make.conf merged with what
//! `portageq envvar` answers for them (profile defaults included), with
//! `-march=native` resolved, USE_EXPAND flags taken out of USE, and the
//! USE_EXPAND variables collected on their own.
use vstd::prelude::*;

use crate::cflags::{
    chost_from_probes, cpu_flags_spec, is_native_token, march_from_probes, resolve_cflags,
    resolve_native_flags, resolve_token, CflagsError, NativeProbes,
};
use crate::strmap::{lemma_has_key_lookup, lemma_lookup_at, sorted_keys, StrMap};
use crate::text::{
    ascii_lower_seq, chars_of, contains_chars, contains_seq, eq_chars, has_prefix, join,
    lower_chars, starts_with, string_of, strings_of, sv, trim, trim_chars, vv, words, words_of,
};

verus! {

/// What `portageq envvar` printed for each variable it was asked about:
/// its standard output when it succeeded, `None` when it failed.
/// `queryable` is false when the configuration is read below another root
/// than `/`; `portageq` is then not asked at all.
pub struct PortageqAnswers {
    pub queryable: bool,
    pub answers: StrMap<Option<String>>,
}

/// The trimmed answer of `portageq` for a variable, when it was asked and
/// succeeded.
pub open spec fn answered(q: PortageqAnswers, var: Seq<char>) -> Option<Seq<char>> {
    if !q.queryable {
        None
    } else {
        match q.answers.lookup(var) {
            Some(Some(out)) => Some(trim(out@)),
            _ => None,
        }
    }
}

/// The make.conf value of a variable, empty when it is not set.
pub open spec fn var_or_empty(vars: StrMap<String>, key: Seq<char>) -> Seq<char> {
    match vars.lookup(key) {
        Some(v) => v@,
        None => Seq::empty(),
    }
}

/// The value of a variable as portage sees it: a non-empty answer of
/// `portageq`, else the make.conf value.
pub open spec fn effective(vars: StrMap<String>, q: PortageqAnswers, key: Seq<char>) -> Seq<char> {
    match answered(q, key) {
        Some(a) => if a.len() > 0 {
            a
        } else {
            var_or_empty(vars, key)
        },
        None => var_or_empty(vars, key),
    }
}

/// The three lists of USE_EXPAND variable names that portage keeps.
pub open spec fn expand_variants() -> Seq<Seq<char>> {
    seq!["USE_EXPAND"@, "USE_EXPAND_UNPREFIXED"@, "USE_EXPAND_HIDDEN"@]
}

/// The names in the answer for one of the USE_EXPAND lists.
pub open spec fn variant_words(q: PortageqAnswers, i: int) -> Seq<Seq<char>> {
    match answered(q, expand_variants()[i]) {
        Some(a) => words(a),
        None => Seq::empty(),
    }
}

/// Whether `portageq` answered for at least one USE_EXPAND list.
pub open spec fn any_variant_answered(q: PortageqAnswers) -> bool {
    answered(q, expand_variants()[0]) is Some || answered(q, expand_variants()[1]) is Some
        || answered(q, expand_variants()[2]) is Some
}

/// Whether a name is in one of the answered USE_EXPAND lists.
pub open spec fn is_variant_name(q: PortageqAnswers, w: Seq<char>) -> bool {
    variant_words(q, 0).contains(w) || variant_words(q, 1).contains(w) || variant_words(
        q,
        2,
    ).contains(w)
}

/// The USE_EXPAND variables assumed when `portageq` cannot list them.
pub open spec fn fallback_expand_keys() -> Seq<Seq<char>> {
    seq![
        "ABI_X86"@,
        "VIDEO_CARDS"@,
        "INPUT_DEVICES"@,
        "L10N"@,
        "PYTHON_TARGETS"@,
        "PYTHON_SINGLE_TARGET"@,
        "RUBY_TARGETS"@,
        "LUA_TARGETS"@,
        "LUA_SINGLE_TARGET"@,
        "LLVM_SLOT"@,
        "LLVM_TARGETS"@,
    ]
}

fn answer_of(q: &PortageqAnswers, var: &str) -> (r: Option<Vec<char>>)
    requires
        q.answers.wf(),
    ensures
        match r {
            Some(v) => answered(*q, var@) == Some(v@),
            None => answered(*q, var@) is None,
        },
{
    if !q.queryable {
        return None;
    }
    match q.answers.get(var) {
        Some(Some(out)) => Some(trim_chars(chars_of(out.as_str()).as_slice())),
        _ => None,
    }
}

/// The value of a variable as portage sees it.
pub fn effective_var(vars: &StrMap<String>, q: &PortageqAnswers, key: &str) -> (r: String)
    requires
        vars.wf(),
        q.answers.wf(),
    ensures
        r@ == effective(*vars, *q, key@),
{
    match answer_of(q, key) {
        Some(a) => {
            if a.len() > 0 {
                return string_of(a.as_slice());
            }
        },
        None => {},
    }
    match vars.get(key) {
        Some(v) => v.clone(),
        None => String::new(),
    }
}

fn fallback_expand_keys_vec() -> (r: Vec<String>)
    ensures
        sv(r@) == fallback_expand_keys(),
{
    let mut v: Vec<String> = Vec::new();
    v.push("ABI_X86".to_string());
    v.push("VIDEO_CARDS".to_string());
    v.push("INPUT_DEVICES".to_string());
    v.push("L10N".to_string());
    v.push("PYTHON_TARGETS".to_string());
    v.push("PYTHON_SINGLE_TARGET".to_string());
    v.push("RUBY_TARGETS".to_string());
    v.push("LUA_TARGETS".to_string());
    v.push("LUA_SINGLE_TARGET".to_string());
    v.push("LLVM_SLOT".to_string());
    v.push("LLVM_TARGETS".to_string());
    assert(sv(v@) =~= fallback_expand_keys());
    v
}

/// Adds every word of `ws` as a key.
fn add_words(m: &mut StrMap<bool>, ws: &Vec<Vec<char>>)
    requires
        old(m).wf(),
    ensures
        final(m).wf(),
        forall|k: Seq<char>| #[trigger] final(m).has_key(k) == (old(m).has_key(k) || vv(ws@).contains(k)),
{
    let mut i: usize = 0;
    while i < ws.len()
        invariant
            i <= ws.len(),
            m.wf(),
            forall|k: Seq<char>| #[trigger] m.has_key(k) == (old(m).has_key(k) || vv(ws@).take(i as int).contains(k)),
        decreases ws.len() - i,
    {
        let ghost before = *m;
        m.insert(string_of(ws[i].as_slice()), true);
        proof {
            assert forall|k: Seq<char>| #[trigger] m.has_key(k) == (old(m).has_key(k) || vv(ws@).take(i + 1).contains(k)) by {
                if vv(ws@).take(i + 1).contains(k) && !vv(ws@).take(i as int).contains(k) {
                    let j = choose|j: int| 0 <= j < i + 1 && #[trigger] vv(ws@).take(i + 1)[j] == k;
                    if j < i {
                        assert(vv(ws@).take(i as int)[j] == k);
                    }
                }
                if vv(ws@).take(i as int).contains(k) {
                    let j = choose|j: int| 0 <= j < i && #[trigger] vv(ws@).take(i as int)[j] == k;
                    assert(vv(ws@).take(i + 1)[j] == k);
                }
                if k == ws@[i as int]@ {
                    assert(vv(ws@).take(i + 1)[i as int] == k);
                }
            }
        }
        i += 1;
    }
    assert(vv(ws@).take(ws.len() as int) =~= vv(ws@));
}

/// The keys of a map, in key order.
fn keys_in_order(m: &StrMap<bool>) -> (r: Vec<String>)
    requires
        m.wf(),
    ensures
        sv(r@) == m.key_seq(),
{
    let mut out: Vec<String> = Vec::new();
    let mut i: usize = 0;
    while i < m.len()
        invariant
            i <= m.size(),
            sv(out@) == m.key_seq().take(i as int),
        decreases m.size() - i,
    {
        let (k, _) = m.entry_at(i);
        assert(m.key_seq()[i as int] == k@);
        let c = k.clone();
        let ghost before = out@;
        out.push(c);
        assert(sv(out@) =~= sv(before).push(c@));
        assert(sv(out@) =~= m.key_seq().take(i + 1));
        i += 1;
    }
    assert(m.key_seq().take(m.size() as int) =~= m.key_seq());
    out
}

/// The USE_EXPAND variables to collect: the names `portageq` lists for
/// the three USE_EXPAND lists, in order and each once, or the fallback
/// list when it answered for none of them.
pub fn use_expand_keys(q: &PortageqAnswers) -> (r: Vec<String>)
    requires
        q.answers.wf(),
    ensures
        any_variant_answered(*q) ==> sorted_keys(sv(r@)) && forall|w: Seq<char>|
            #[trigger] sv(r@).contains(w) <==> is_variant_name(*q, w),
        !any_variant_answered(*q) ==> sv(r@) == fallback_expand_keys(),
{
    let a0 = answer_of(q, "USE_EXPAND");
    let a1 = answer_of(q, "USE_EXPAND_UNPREFIXED");
    let a2 = answer_of(q, "USE_EXPAND_HIDDEN");
    if a0.is_none() && a1.is_none() && a2.is_none() {
        return fallback_expand_keys_vec();
    }
    let mut m: StrMap<bool> = StrMap::new();
    let e: Vec<Vec<char>> = Vec::new();
    let w0 = match &a0 {
        Some(a) => words_of(a.as_slice()),
        None => e.clone(),
    };
    assert(vv(w0@) == variant_words(*q, 0));
    add_words(&mut m, &w0);
    let w1 = match &a1 {
        Some(a) => words_of(a.as_slice()),
        None => Vec::new(),
    };
    assert(vv(w1@) == variant_words(*q, 1));
    add_words(&mut m, &w1);
    let w2 = match &a2 {
        Some(a) => words_of(a.as_slice()),
        None => Vec::new(),
    };
    assert(vv(w2@) == variant_words(*q, 2));
    add_words(&mut m, &w2);
    let r = keys_in_order(&m);
    proof {
        assert forall|w: Seq<char>| #[trigger] sv(r@).contains(w) <==> is_variant_name(*q, w) by {
            if sv(r@).contains(w) {
                let j = choose|j: int| 0 <= j < sv(r@).len() && #[trigger] sv(r@)[j] == w;
                assert(m.key_seq()[j] == w);
                assert(m.has_key(w));
            }
            if m.has_key(w) {
                let j = choose|j: int| 0 <= j < m.key_seq().len() && #[trigger] m.key_seq()[j] == w;
                assert(sv(r@)[j] == w);
            }
        }
    }
    r
}

/// The USE_EXPAND variables assumed, when `portageq` cannot list them, for
/// taking expanded flags out of USE.
pub open spec fn fallback_strip_vars() -> Seq<Seq<char>> {
    seq![
        "ABI_X86"@,
        "ABI_MIPS"@,
        "ABI_S390"@,
        "CPU_FLAGS_X86"@,
        "CPU_FLAGS_ARM"@,
        "PYTHON_TARGETS"@,
        "PYTHON_SINGLE_TARGET"@,
        "RUBY_TARGETS"@,
        "LUA_TARGETS"@,
        "LUA_SINGLE_TARGET"@,
        "LLVM_SLOT"@,
        "LLVM_TARGETS"@,
        "VIDEO_CARDS"@,
        "INPUT_DEVICES"@,
        "L10N"@,
    ]
}

/// The prefix of the flags a USE_EXPAND variable expands to: its name in
/// ASCII lower case, then `_`.
pub open spec fn expand_prefix(v: Seq<char>) -> Seq<char> {
    ascii_lower_seq(v) + "_"@
}

/// The flag prefixes to take out of USE: those of the answered USE_EXPAND
/// lists, in order, or of the fallback list when none was answered.
pub open spec fn strip_prefixes(q: PortageqAnswers) -> Seq<Seq<char>> {
    if any_variant_answered(q) {
        (variant_words(q, 0) + variant_words(q, 1) + variant_words(q, 2)).map_values(
            |v: Seq<char>| expand_prefix(v),
        )
    } else {
        fallback_strip_vars().map_values(|v: Seq<char>| expand_prefix(v))
    }
}

/// Whether a flag is the expanded form of a USE_EXPAND variable.
pub open spec fn is_expand_flag(q: PortageqAnswers, f: Seq<char>) -> bool {
    exists|i: int| 0 <= i < strip_prefixes(q).len() && starts_with(f, #[trigger] strip_prefixes(q)[i])
}

/// The flags that are not expanded USE_EXPAND values, in order.
pub open spec fn without_expand_flags(q: PortageqAnswers, flags: Seq<Seq<char>>) -> Seq<Seq<char>>
    decreases flags.len(),
{
    if flags.len() == 0 {
        Seq::empty()
    } else {
        let rest = without_expand_flags(q, flags.drop_last());
        if is_expand_flag(q, flags.last()) {
            rest
        } else {
            rest.push(flags.last())
        }
    }
}

fn prefixes_of(names: &Vec<Vec<char>>) -> (r: Vec<Vec<char>>)
    ensures
        vv(r@) == vv(names@).map_values(|v: Seq<char>| expand_prefix(v)),
{
    let mut r: Vec<Vec<char>> = Vec::new();
    let mut i: usize = 0;
    while i < names.len()
        invariant
            i <= names.len(),
            vv(r@) == vv(names@).take(i as int).map_values(|v: Seq<char>| expand_prefix(v)),
        decreases names.len() - i,
    {
        let mut p = lower_chars(&names[i]);
        p.push('_');
        proof {
            reveal_strlit("_");
        }
        assert(p@ =~= expand_prefix(names@[i as int]@));
        let ghost before = r@;
        r.push(p);
        assert(vv(r@) =~= vv(before).push(p@));
        assert(vv(names@).take(i + 1) =~= vv(names@).take(i as int).push(names@[i as int]@));
        assert(vv(r@) =~= vv(names@).take(i + 1).map_values(|v: Seq<char>| expand_prefix(v)));
        i += 1;
    }
    assert(vv(names@).take(names.len() as int) =~= vv(names@));
    r
}

fn char_vecs(v: Vec<String>) -> (r: Vec<Vec<char>>)
    ensures
        vv(r@) == sv(v@),
{
    let mut r: Vec<Vec<char>> = Vec::new();
    let mut i: usize = 0;
    while i < v.len()
        invariant
            i <= v.len(),
            vv(r@) == sv(v@).take(i as int),
        decreases v.len() - i,
    {
        let c = chars_of(v[i].as_str());
        let ghost before = r@;
        r.push(c);
        assert(vv(r@) =~= vv(before).push(c@));
        assert(vv(r@) =~= sv(v@).take(i + 1));
        i += 1;
    }
    assert(sv(v@).take(v.len() as int) =~= sv(v@));
    r
}

fn fallback_strip_vars_vec() -> (r: Vec<String>)
    ensures
        sv(r@) == fallback_strip_vars(),
{
    let mut v: Vec<String> = Vec::new();
    v.push("ABI_X86".to_string());
    v.push("ABI_MIPS".to_string());
    v.push("ABI_S390".to_string());
    v.push("CPU_FLAGS_X86".to_string());
    v.push("CPU_FLAGS_ARM".to_string());
    v.push("PYTHON_TARGETS".to_string());
    v.push("PYTHON_SINGLE_TARGET".to_string());
    v.push("RUBY_TARGETS".to_string());
    v.push("LUA_TARGETS".to_string());
    v.push("LUA_SINGLE_TARGET".to_string());
    v.push("LLVM_SLOT".to_string());
    v.push("LLVM_TARGETS".to_string());
    v.push("VIDEO_CARDS".to_string());
    v.push("INPUT_DEVICES".to_string());
    v.push("L10N".to_string());
    assert(sv(v@) =~= fallback_strip_vars());
    v
}

fn append_all(dst: &mut Vec<Vec<char>>, src: Vec<Vec<char>>)
    ensures
        vv(final(dst)@) == vv(old(dst)@) + vv(src@),
{
    let mut i: usize = 0;
    while i < src.len()
        invariant
            i <= src.len(),
            vv(dst@) == vv(old(dst)@) + vv(src@).take(i as int),
        decreases src.len() - i,
    {
        let c = crate::text::sub_chars(src[i].as_slice(), 0, src[i].len());
        assert(c@ =~= src@[i as int]@);
        let ghost before = dst@;
        dst.push(c);
        assert(vv(dst@) =~= vv(before).push(c@));
        assert(vv(dst@) =~= vv(old(dst)@) + vv(src@).take(i + 1));
        i += 1;
    }
    assert(vv(src@).take(src.len() as int) =~= vv(src@));
}

fn answer_words(a: &Option<Vec<char>>) -> (r: Vec<Vec<char>>)
    ensures
        vv(r@) == (match *a {
            Some(x) => words(x@),
            None => Seq::<Seq<char>>::empty(),
        }),
{
    match a {
        Some(x) => words_of(x.as_slice()),
        None => {
            let e: Vec<Vec<char>> = Vec::new();
            assert(vv(e@) =~= Seq::<Seq<char>>::empty());
            e
        },
    }
}

fn strip_prefixes_exec(q: &PortageqAnswers) -> (r: Vec<Vec<char>>)
    requires
        q.answers.wf(),
    ensures
        vv(r@) == strip_prefixes(*q),
{
    let a0 = answer_of(q, "USE_EXPAND");
    let a1 = answer_of(q, "USE_EXPAND_UNPREFIXED");
    let a2 = answer_of(q, "USE_EXPAND_HIDDEN");
    if a0.is_none() && a1.is_none() && a2.is_none() {
        let names = char_vecs(fallback_strip_vars_vec());
        return prefixes_of(&names);
    }
    let mut names = answer_words(&a0);
    append_all(&mut names, answer_words(&a1));
    append_all(&mut names, answer_words(&a2));
    assert(vv(names@) =~= variant_words(*q, 0) + variant_words(*q, 1) + variant_words(*q, 2));
    prefixes_of(&names)
}

fn starts_with_any(f: &[char], prefixes: &Vec<Vec<char>>) -> (r: bool)
    ensures
        r == exists|i: int| 0 <= i < prefixes.len() && starts_with(f@, #[trigger] vv(prefixes@)[i]),
{
    let mut i: usize = 0;
    while i < prefixes.len()
        invariant
            i <= prefixes.len(),
            forall|j: int| 0 <= j < i ==> !starts_with(f@, #[trigger] vv(prefixes@)[j]),
        decreases prefixes.len() - i,
    {
        assert(vv(prefixes@)[i as int] == prefixes@[i as int]@);
        if has_prefix(f, prefixes[i].as_slice()) {
            return true;
        }
        i += 1;
    }
    false
}

/// Takes the expanded USE_EXPAND flags (`abi_x86_32`,
/// `python_targets_python3_12`, ...) out of a resolved USE list: those that
/// start with the lower-cased name of a USE_EXPAND variable and `_`.
pub fn strip_use_expand_flags(flags: Vec<String>, q: &PortageqAnswers) -> (r: Vec<String>)
    requires
        q.answers.wf(),
    ensures
        sv(r@) == without_expand_flags(*q, sv(flags@)),
{
    let prefixes = strip_prefixes_exec(q);
    let mut out: Vec<String> = Vec::new();
    let mut i: usize = 0;
    while i < flags.len()
        invariant
            i <= flags.len(),
            vv(prefixes@) == strip_prefixes(*q),
            sv(out@) == without_expand_flags(*q, sv(flags@).take(i as int)),
        decreases flags.len() - i,
    {
        let f = chars_of(flags[i].as_str());
        let hit = starts_with_any(f.as_slice(), &prefixes);
        assert(sv(flags@).take(i + 1).drop_last() =~= sv(flags@).take(i as int));
        assert(sv(flags@).take(i + 1).last() == f@);
        if !hit {
            let ghost before = out@;
            out.push(flags[i].clone());
            assert(sv(out@) =~= sv(before).push(f@));
        }
        i += 1;
    }
    assert(sv(flags@).take(flags.len() as int) =~= sv(flags@));
    out
}

/// The USE flags and whether they come from `portageq`: without `portageq`
/// none; its answer without the expanded USE_EXPAND flags; when it fails,
/// the words of USE as portage sees it otherwise.
pub open spec fn resolved_use(vars: StrMap<String>, q: PortageqAnswers) -> (Seq<Seq<char>>, bool) {
    if !q.queryable {
        (Seq::empty(), true)
    } else {
        match answered(q, "USE"@) {
            Some(a) => (without_expand_flags(q, words(a)), true),
            None => (words(effective(vars, q, "USE"@)), false),
        }
    }
}

fn resolve_use_flags(vars: &StrMap<String>, q: &PortageqAnswers) -> (r: (Vec<String>, bool))
    requires
        vars.wf(),
        q.answers.wf(),
    ensures
        (sv(r.0@), r.1) == resolved_use(*vars, *q),
{
    if !q.queryable {
        let e: Vec<String> = Vec::new();
        assert(sv(e@) =~= Seq::<Seq<char>>::empty());
        return (e, true);
    }
    match answer_of(q, "USE") {
        Some(a) => {
            let flags = strings_of(&words_of(a.as_slice()));
            (strip_use_expand_flags(flags, q), true)
        },
        None => {
            let eff = effective_var(vars, q, "USE");
            (strings_of(&words_of(chars_of(eff.as_str()).as_slice())), false)
        },
    }
}

/// Whether a variable is one of the USE_EXPAND variables to collect: a
/// name in an answered USE_EXPAND list, or in the fallback list when none
/// was answered.
pub open spec fn is_expand_key(q: PortageqAnswers, k: Seq<char>) -> bool {
    if any_variant_answered(q) {
        is_variant_name(q, k)
    } else {
        fallback_expand_keys().contains(k)
    }
}

/// The values of a USE_EXPAND variable: the words of the answer of
/// `portageq`, or of the make.conf value when it fails; none when
/// `portageq` is not asked.
pub open spec fn expand_values(vars: StrMap<String>, q: PortageqAnswers, key: Seq<char>) -> Seq<Seq<char>> {
    if !q.queryable {
        Seq::empty()
    } else {
        match answered(q, key) {
            Some(a) => words(a),
            None => words(var_or_empty(vars, key)),
        }
    }
}

/// Whether a USE_EXPAND variable is collected: not a `CPU_FLAGS_*`
/// variable (those come from the CPU), and with at least one value.
pub open spec fn collects_expand(vars: StrMap<String>, q: PortageqAnswers, k: Seq<char>) -> bool {
    is_expand_key(q, k) && !starts_with(k, "CPU_FLAGS_"@) && expand_values(vars, q, k).len() > 0
}

fn expand_values_exec(vars: &StrMap<String>, q: &PortageqAnswers, key: &str) -> (r: Vec<String>)
    requires
        vars.wf(),
        q.answers.wf(),
    ensures
        sv(r@) == expand_values(*vars, *q, key@),
{
    if !q.queryable {
        let e: Vec<String> = Vec::new();
        assert(sv(e@) =~= Seq::<Seq<char>>::empty());
        return e;
    }
    match answer_of(q, key) {
        Some(a) => strings_of(&words_of(a.as_slice())),
        None => {
            let v = match vars.get(key) {
                Some(v) => chars_of(v.as_str()),
                None => Vec::new(),
            };
            assert(v@ == var_or_empty(*vars, key@));
            strings_of(&words_of(v.as_slice()))
        },
    }
}

fn collect_use_expand(vars: &StrMap<String>, q: &PortageqAnswers, keys: &Vec<String>) -> (r: StrMap<Vec<String>>)
    requires
        vars.wf(),
        q.answers.wf(),
    ensures
        r.wf(),
        forall|k: Seq<char>| #[trigger] r.has_key(k) == (sv(keys@).contains(k) && !starts_with(k, "CPU_FLAGS_"@)
            && expand_values(*vars, *q, k).len() > 0),
        forall|k: Seq<char>| #[trigger] r.lookup(k) matches Some(v) ==> sv(v@) == expand_values(*vars, *q, k),
{
    let cpu = chars_of("CPU_FLAGS_");
    let mut m: StrMap<Vec<String>> = StrMap::new();
    let mut i: usize = 0;
    while i < keys.len()
        invariant
            i <= keys.len(),
            vars.wf(),
            q.answers.wf(),
            cpu@ == "CPU_FLAGS_"@,
            m.wf(),
            forall|k: Seq<char>| #[trigger] m.has_key(k) == (sv(keys@).take(i as int).contains(k) && !starts_with(k, "CPU_FLAGS_"@)
                && expand_values(*vars, *q, k).len() > 0),
            forall|k: Seq<char>| #[trigger] m.lookup(k) matches Some(v) ==> sv(v@) == expand_values(*vars, *q, k),
        decreases keys.len() - i,
    {
        let key = &keys[i];
        let kc = chars_of(key.as_str());
        let ghost kk = key@;
        assert(sv(keys@)[i as int] == kk);
        let mut inserted = false;
        if !has_prefix(kc.as_slice(), cpu.as_slice()) {
            let vals = expand_values_exec(vars, q, key.as_str());
            if vals.len() > 0 {
                m.insert(key.clone(), vals);
                inserted = true;
            }
        }
        proof {
            assert forall|k: Seq<char>| #[trigger] m.has_key(k) == (sv(keys@).take(i + 1).contains(k) && !starts_with(k, "CPU_FLAGS_"@)
                && expand_values(*vars, *q, k).len() > 0) by {
                if sv(keys@).take(i + 1).contains(k) && k != kk {
                    let j = choose|j: int| 0 <= j < i + 1 && #[trigger] sv(keys@).take(i + 1)[j] == k;
                    assert(j < i);
                    assert(sv(keys@).take(i as int)[j] == k);
                }
                if sv(keys@).take(i as int).contains(k) {
                    let j = choose|j: int| 0 <= j < i && #[trigger] sv(keys@).take(i as int)[j] == k;
                    assert(sv(keys@).take(i + 1)[j] == k);
                }
                if k == kk {
                    assert(sv(keys@).take(i + 1)[i as int] == k);
                }
            }
        }
        i += 1;
    }
    assert(sv(keys@).take(keys.len() as int) =~= sv(keys@));
    m
}

/// The variables that make.conf is known to hold besides the USE_EXPAND
/// variables.
pub open spec fn fixed_known_keys() -> Seq<Seq<char>> {
    seq![
        "CFLAGS"@,
        "CXXFLAGS"@,
        "LDFLAGS"@,
        "MAKEOPTS"@,
        "USE"@,
        "FEATURES"@,
        "ACCEPT_LICENSE"@,
        "ACCEPT_KEYWORDS"@,
        "EMERGE_DEFAULT_OPTS"@,
        "CHOST"@,
    ]
}

fn fixed_known_keys_vec() -> (r: Vec<String>)
    ensures
        sv(r@) == fixed_known_keys(),
{
    let mut v: Vec<String> = Vec::new();
    v.push("CFLAGS".to_string());
    v.push("CXXFLAGS".to_string());
    v.push("LDFLAGS".to_string());
    v.push("MAKEOPTS".to_string());
    v.push("USE".to_string());
    v.push("FEATURES".to_string());
    v.push("ACCEPT_LICENSE".to_string());
    v.push("ACCEPT_KEYWORDS".to_string());
    v.push("EMERGE_DEFAULT_OPTS".to_string());
    v.push("CHOST".to_string());
    assert(sv(v@) =~= fixed_known_keys());
    v
}

/// The variables of make.conf that are neither known nor USE_EXPAND
/// variables, kept as they are.
fn collect_extra(vars: &StrMap<String>, keys: &Vec<String>) -> (r: StrMap<String>)
    requires
        vars.wf(),
    ensures
        r.wf(),
        forall|k: Seq<char>| #[trigger] r.lookup(k) == (if fixed_known_keys().contains(k) || sv(keys@).contains(k) {
            None
        } else {
            vars.lookup(k)
        }),
{
    let fixed = fixed_known_keys_vec();
    let mut m: StrMap<String> = StrMap::new();
    proof {
        assert forall|k: Seq<char>| #[trigger] m.lookup(k) is None by {
            lemma_has_key_lookup(m, k);
        }
    }
    let mut i: usize = 0;
    while i < vars.len()
        invariant
            i <= vars.size(),
            vars.wf(),
            m.wf(),
            sv(fixed@) == fixed_known_keys(),
            forall|k: Seq<char>| #[trigger] m.lookup(k) == (if fixed_known_keys().contains(k) || sv(keys@).contains(k)
                || !vars.key_seq().take(i as int).contains(k) {
                None
            } else {
                vars.lookup(k)
            }),
        decreases vars.size() - i,
    {
        let (k, v) = vars.entry_at(i);
        let kc = chars_of(k.as_str());
        let ghost kk = k@;
        proof {
            lemma_lookup_at(*vars, i as int);
            assert(vars.key_seq()[i as int] == kk);
        }
        if !crate::text::list_contains(fixed.as_slice(), kc.as_slice()) && !crate::text::list_contains(keys.as_slice(), kc.as_slice()) {
            m.insert(k.clone(), v.clone());
        }
        proof {
            assert forall|q: Seq<char>| #[trigger] m.lookup(q) == (if fixed_known_keys().contains(q) || sv(keys@).contains(q)
                || !vars.key_seq().take(i + 1).contains(q) {
                None
            } else {
                vars.lookup(q)
            }) by {
                if vars.key_seq().take(i + 1).contains(q) && q != kk {
                    let j = choose|j: int| 0 <= j < i + 1 && #[trigger] vars.key_seq().take(i + 1)[j] == q;
                    assert(j < i);
                    assert(vars.key_seq().take(i as int)[j] == q);
                }
                if vars.key_seq().take(i as int).contains(q) {
                    let j = choose|j: int| 0 <= j < i && #[trigger] vars.key_seq().take(i as int)[j] == q;
                    assert(vars.key_seq().take(i + 1)[j] == q);
                }
                if q == kk {
                    assert(vars.key_seq().take(i + 1)[i as int] == q);
                }
            }
        }
        i += 1;
    }
    proof {
        assert(vars.key_seq().take(vars.size() as int) =~= vars.key_seq());
        assert forall|k: Seq<char>| #[trigger] m.lookup(k) == (if fixed_known_keys().contains(k) || sv(keys@).contains(k) {
            None
        } else {
            vars.lookup(k)
        }) by {
            lemma_has_key_lookup(*vars, k);
        }
    }
    m
}

/// Whether a flag string holds `-march=native` or `-mtune=native`.
pub open spec fn native_in(raw: Seq<char>) -> bool {
    exists|i: int| 0 <= i < words(raw).len() && is_native_token(#[trigger] words(raw)[i])
}

/// The flag string with `native` replaced by the resolved architecture.
pub open spec fn resolve_all(raw: Seq<char>, m: Seq<char>) -> Seq<char> {
    join(words(raw).map_values(|t: Seq<char>| resolve_token(t, m)), " "@)
}

/// CFLAGS with `-march=native` resolved, and the original CFLAGS when
/// that changed anything.
pub open spec fn resolved_cflags(raw: Seq<char>, march: Option<Seq<char>>) -> (Seq<char>, Option<Seq<char>>) {
    match march {
        Some(m) => if native_in(raw) {
            (resolve_all(raw, m), Some(raw))
        } else {
            (raw, None)
        },
        None => (raw, None),
    }
}

/// CXXFLAGS, resolved when they mention `-march=native` and the
/// architecture is known.
pub open spec fn resolved_cxxflags(raw: Seq<char>, march: Option<Seq<char>>) -> Seq<char> {
    if contains_seq(raw, "-march=native"@) && march is Some {
        resolve_all(raw, march->0)
    } else {
        raw
    }
}

/// The make.conf settings sent with a workorder.
pub struct MakeConf {
    pub cflags: String,
    pub cxxflags: String,
    pub ldflags: String,
    pub makeopts: String,
    pub use_flags: Vec<String>,
    pub features: Vec<String>,
    pub accept_license: String,
    pub accept_keywords: String,
    pub emerge_default_opts: String,
    pub chost: String,
    /// The CPU flags variable and its flags, e.g. `CPU_FLAGS_X86`.
    pub cpu_flags: Option<(String, Vec<String>)>,
    /// CFLAGS as written, when `-march=native` was resolved in them.
    pub original_cflags: Option<String>,
    /// The USE_EXPAND variables with their values.
    pub use_expand: StrMap<Vec<String>>,
    /// The other make.conf variables.
    pub extra: StrMap<String>,
    /// Whether USE came from `portageq` (profile defaults included).
    pub use_flags_resolved: bool,
}

pub open spec fn opt_view(o: Option<String>) -> Option<Seq<char>> {
    match o {
        Some(s) => Some(s@),
        None => None,
    }
}

/// What the make.conf sent with a workorder holds, given make.conf, the
/// answers of `portageq` and the system probes.
pub open spec fn make_conf_matches(
    c: MakeConf,
    vars: StrMap<String>,
    q: PortageqAnswers,
    probes: NativeProbes,
) -> bool {
    let march = march_from_probes(probes);
    let chost = effective(vars, q, "CHOST"@);
    &&& (c.cflags@, opt_view(c.original_cflags)) == resolved_cflags(effective(vars, q, "CFLAGS"@), march)
    &&& c.cxxflags@ == resolved_cxxflags(effective(vars, q, "CXXFLAGS"@), march)
    &&& c.ldflags@ == effective(vars, q, "LDFLAGS"@)
    &&& c.makeopts@ == effective(vars, q, "MAKEOPTS"@)
    &&& (sv(c.use_flags@), c.use_flags_resolved) == resolved_use(vars, q)
    &&& sv(c.features@) == words(effective(vars, q, "FEATURES"@))
    &&& c.accept_license@ == effective(vars, q, "ACCEPT_LICENSE"@)
    &&& c.accept_keywords@ == effective(vars, q, "ACCEPT_KEYWORDS"@)
    &&& c.emerge_default_opts@ == effective(vars, q, "EMERGE_DEFAULT_OPTS"@)
    &&& c.chost@ == (if chost.len() > 0 {
        chost
    } else {
        chost_from_probes(probes)->0
    })
    &&& match c.cpu_flags {
        Some((var, flags)) => probes.cpuid2cpuflags.is_some() && cpu_flags_spec(
            probes.cpuid2cpuflags.unwrap()@,
        ) == Some((var@, sv(flags@))),
        None => probes.cpuid2cpuflags.is_none() || cpu_flags_spec(
            probes.cpuid2cpuflags.unwrap()@,
        ).is_none(),
    }
    &&& c.use_expand.wf()
    &&& forall|k: Seq<char>| #[trigger] c.use_expand.has_key(k) == collects_expand(vars, q, k)
    &&& forall|k: Seq<char>| #[trigger] c.use_expand.lookup(k) matches Some(v) ==> sv(v@)
        == expand_values(vars, q, k)
    &&& c.extra.wf()
    &&& forall|k: Seq<char>| #[trigger] c.extra.lookup(k) == (if fixed_known_keys().contains(k)
        || is_expand_key(q, k) {
        None
    } else {
        vars.lookup(k)
    })
}

fn cflags_pair(raw: String, march: &Option<String>) -> (r: (String, Option<String>))
    ensures
        (r.0@, opt_view(r.1)) == resolved_cflags(raw@, opt_view(*march)),
{
    match march {
        Some(m) => {
            let (resolved, modified) = resolve_cflags(raw.as_str(), m.as_str());
            if modified {
                (resolved, Some(raw))
            } else {
                (raw, None)
            }
        },
        None => (raw, None),
    }
}

fn cxxflags_of(raw: String, march: &Option<String>) -> (r: String)
    ensures
        r@ == resolved_cxxflags(raw@, opt_view(*march)),
{
    let native = contains_chars(chars_of(raw.as_str()).as_slice(), chars_of("-march=native").as_slice());
    if native {
        match march {
            Some(m) => {
                let (resolved, _) = resolve_cflags(raw.as_str(), m.as_str());
                return resolved;
            },
            None => {},
        }
    }
    raw
}

/// The make.conf sent with a workorder: the make.conf variables merged
/// with the answers of `portageq`, `-march=native` resolved with the system
/// probes, expanded USE_EXPAND flags taken out of USE and the USE_EXPAND
/// variables collected apart. Fails when no CHOST can be detected.
pub fn effective_make_conf(vars: &StrMap<String>, q: &PortageqAnswers, probes: &NativeProbes) -> (r:
    Result<MakeConf, CflagsError>)
    requires
        vars.wf(),
        q.answers.wf(),
    ensures
        r is Err <==> chost_from_probes(*probes) is None,
        r matches Ok(c) ==> make_conf_matches(c, *vars, *q, *probes),
{
    let resolved = resolve_native_flags(probes)?;
    let (cflags, original_cflags) = cflags_pair(effective_var(vars, q, "CFLAGS"), &resolved.march);
    let cxxflags = cxxflags_of(effective_var(vars, q, "CXXFLAGS"), &resolved.march);
    let chost_eff = effective_var(vars, q, "CHOST");
    let chost = if chars_of(chost_eff.as_str()).len() > 0 {
        chost_eff
    } else {
        resolved.chost
    };
    let (use_flags, use_flags_resolved) = resolve_use_flags(vars, q);
    let keys = use_expand_keys(q);
    let use_expand = collect_use_expand(vars, q, &keys);
    let extra = collect_extra(vars, &keys);
    let features_raw = effective_var(vars, q, "FEATURES");
    let features = strings_of(&words_of(chars_of(features_raw.as_str()).as_slice()));
    let c = MakeConf {
        cflags,
        cxxflags,
        ldflags: effective_var(vars, q, "LDFLAGS"),
        makeopts: effective_var(vars, q, "MAKEOPTS"),
        use_flags,
        features,
        accept_license: effective_var(vars, q, "ACCEPT_LICENSE"),
        accept_keywords: effective_var(vars, q, "ACCEPT_KEYWORDS"),
        emerge_default_opts: effective_var(vars, q, "EMERGE_DEFAULT_OPTS"),
        chost,
        cpu_flags: resolved.cpu_flags,
        original_cflags,
        use_expand,
        extra,
        use_flags_resolved,
    };
    proof {
        assert forall|k: Seq<char>| sv(keys@).contains(k) == is_expand_key(*q, k) by {}
    }
    Ok(c)
}

/// The variables to ask `portageq` about once the USE_EXPAND lists are
/// known: the make.conf settings, USE, and every USE_EXPAND variable.
pub fn portageq_variables(expand_keys: &Vec<String>) -> (r: Vec<String>)
    ensures
        sv(r@) == fixed_known_keys() + sv(expand_keys@),
{
    let mut r = fixed_known_keys_vec();
    let mut i: usize = 0;
    while i < expand_keys.len()
        invariant
            i <= expand_keys.len(),
            sv(r@) == fixed_known_keys() + sv(expand_keys@).take(i as int),
        decreases expand_keys.len() - i,
    {
        let ghost before = r@;
        r.push(expand_keys[i].clone());
        assert(sv(r@) =~= sv(before).push(expand_keys@[i as int]@));
        assert(sv(r@) =~= fixed_known_keys() + sv(expand_keys@).take(i + 1));
        i += 1;
    }
    assert(sv(expand_keys@).take(expand_keys.len() as int) =~= sv(expand_keys@));
    r
}

} // verus!

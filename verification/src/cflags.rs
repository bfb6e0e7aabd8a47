//! Compiler flag resolution.
//!
//! Translates `-march=native` (and `-mtune=native`) into a concrete
//! micro-architecture so the worker container, which runs on a different
//! machine, produces binaries compatible with the requesting host.  The
//! probes themselves (running `resolve-march-native`, `gcc`, `cpuid2cpuflags`,
//! `portageq`, `uname`) happen outside this crate; their outputs are handed
//! to the functions here.
use vstd::prelude::*;

use crate::text::{
    append_chars, chars_of, concat_chars, eq_chars, has_prefix, join, join_chars, lines, lines_of,
    split_on, split_chars, starts_with, string_of, strings_of, sub_chars, sv, trim, trim_chars, vv,
    words, words_of,
};

verus! {

/// Result of resolving "native" flags on the current system.
pub struct ResolvedFlags {
    /// The resolved `-march=` value (e.g. `skylake`, `znver3`), if detected.
    pub march: Option<String>,
    /// CPU capability flags, e.g. `("CPU_FLAGS_X86", ["aes", "avx", …])`.
    pub cpu_flags: Option<(String, Vec<String>)>,
    /// The `CHOST` tuple detected on this system.
    pub chost: String,
}

/// Outputs of the system probes, `None` where the program could not be run
/// or exited unsuccessfully.
pub struct NativeProbes {
    /// Standard output of `resolve-march-native`.
    pub resolve_march_native: Option<String>,
    /// Standard output of `gcc -march=native -Q --help=target`.
    pub gcc_target_help: Option<String>,
    /// Standard output of `cpuid2cpuflags`.
    pub cpuid2cpuflags: Option<String>,
    /// Standard output of `portageq envvar CHOST`.
    pub portageq_chost: Option<String>,
    /// Standard output of `gcc -dumpmachine`.
    pub gcc_dumpmachine: Option<String>,
    /// Standard output of `uname -m`, `None` if it could not be run.
    pub uname_machine: Option<String>,
}

/// Error of CHOST detection: every probe failed, `uname` included.
#[derive(Debug, Clone, Copy, PartialEq, Eq, Structural)]
pub enum CflagsError {
    UnameFailed,
}

/// The value of the first `-march=<value>` token whose value is neither
/// empty nor `native`.
pub open spec fn first_march(tokens: Seq<Seq<char>>) -> Option<Seq<char>>
    decreases tokens.len(),
{
    if tokens.len() == 0 {
        None
    } else {
        let t = tokens[0];
        let v = t.skip("-march="@.len() as int);
        if starts_with(t, "-march="@) && v != "native"@ && v.len() > 0 {
            Some(v)
        } else {
            first_march(tokens.drop_first())
        }
    }
}

/// A CFLAGS token with `native` replaced by the resolved architecture.
pub open spec fn resolve_token(t: Seq<char>, m: Seq<char>) -> Seq<char> {
    if t == "-march=native"@ {
        "-march="@ + m
    } else if t == "-mtune=native"@ {
        "-mtune="@ + m
    } else {
        t
    }
}

pub open spec fn is_native_token(t: Seq<char>) -> bool {
    t == "-march=native"@ || t == "-mtune=native"@
}

/// The `-march=` value that GCC reports in `-Q --help=target` output: the
/// first line that, trimmed, starts with `-march=` and whose trimmed rest is
/// neither empty nor `native`.
pub open spec fn gcc_march(ls: Seq<Seq<char>>) -> Option<Seq<char>>
    decreases ls.len(),
{
    if ls.len() == 0 {
        None
    } else {
        let t = trim(ls[0]);
        let v = trim(t.skip("-march="@.len() as int));
        if starts_with(t, "-march="@) && v.len() > 0 && v != "native"@ {
            Some(v)
        } else {
            gcc_march(ls.drop_first())
        }
    }
}

/// Index of the first occurrence of `c` in `s`, if any.
pub open spec fn first_index(s: Seq<char>, c: char) -> Option<int> {
    if exists|i: int| 0 <= i < s.len() && s[i] == c {
        Some(choose|i: int| 0 <= i < s.len() && s[i] == c && forall|j: int| 0 <= j < i ==> s[j] != c)
    } else {
        None
    }
}

/// `CPU_FLAGS_*` parsed from `cpuid2cpuflags` output: `VAR: flag flag …`.
pub open spec fn cpu_flags_spec(out: Seq<char>) -> Option<(Seq<char>, Seq<Seq<char>>)> {
    let line = trim(out);
    let p = split_on(line, ':');
    if p.len() >= 2 {
        let k = p[0].len() as int;
        let var = trim(line.take(k));
        let flags = words(line.skip(k + 1));
        if flags.len() > 0 {
            Some((var, flags))
        } else {
            None
        }
    } else {
        None
    }
}

/// A trimmed probe output, unless it is empty.
pub open spec fn nonempty_trimmed(out: Option<Seq<char>>) -> Option<Seq<char>> {
    match out {
        Some(o) => if trim(o).len() > 0 {
            Some(trim(o))
        } else {
            None
        },
        None => None,
    }
}

/// The CHOST guessed from the machine name that `uname -m` prints.
pub open spec fn chost_for_arch_spec(arch: Seq<char>) -> Seq<char> {
    if arch == "x86_64"@ {
        "x86_64-pc-linux-gnu"@
    } else if arch == "aarch64"@ {
        "aarch64-unknown-linux-gnu"@
    } else if arch == "armv7l"@ {
        "armv7a-unknown-linux-gnueabihf"@
    } else if arch == "i686"@ {
        "i686-pc-linux-gnu"@
    } else if arch == "riscv64"@ {
        "riscv64-unknown-linux-gnu"@
    } else if arch == "ppc64le"@ {
        "powerpc64le-unknown-linux-gnu"@
    } else {
        arch + "-unknown-linux-gnu"@
    }
}

pub open spec fn opt_view(o: Option<String>) -> Option<Seq<char>> {
    match o {
        Some(s) => Some(s@),
        None => None,
    }
}

/// The march value found by the probes, trying `resolve-march-native` first.
pub open spec fn march_from_probes(p: NativeProbes) -> Option<Seq<char>> {
    let a = match p.resolve_march_native {
        Some(o) => first_march(words(o@)),
        None => None,
    };
    if a.is_some() {
        a
    } else {
        match p.gcc_target_help {
            Some(o) => gcc_march(lines(o@)),
            None => None,
        }
    }
}

/// The CHOST found by the probes: portageq, then gcc, then a guess from `uname -m`.
pub open spec fn chost_from_probes(p: NativeProbes) -> Option<Seq<char>> {
    if nonempty_trimmed(opt_view(p.portageq_chost)).is_some() {
        nonempty_trimmed(opt_view(p.portageq_chost))
    } else if nonempty_trimmed(opt_view(p.gcc_dumpmachine)).is_some() {
        nonempty_trimmed(opt_view(p.gcc_dumpmachine))
    } else {
        match p.uname_machine {
            Some(m) => Some(chost_for_arch_spec(trim(m@))),
            None => None,
        }
    }
}

/// Extract `-march=<value>` from a string of compiler flags.
pub fn extract_march_value(flags: &str) -> (r: Option<String>)
    ensures
        opt_view(r) == first_march(words(flags@)),
{
    let cs = chars_of(flags);
    let tokens = words_of(cs.as_slice());
    let prefix = chars_of("-march=");
    let native = chars_of("native");
    let mut i: usize = 0;
    assert(vv(tokens@).skip(0) =~= vv(tokens@));
    while i < tokens.len()
        invariant
            i <= tokens.len(),
            vv(tokens@) == words(flags@),
            prefix@ == "-march="@,
            native@ == "native"@,
            first_march(vv(tokens@).skip(i as int)) == first_march(words(flags@)),
        decreases tokens.len() - i,
    {
        let t = &tokens[i];
        proof {
            let ts = vv(tokens@).skip(i as int);
            assert(ts[0] == t@);
            assert(ts.drop_first() =~= vv(tokens@).skip(i + 1));
        }
        if has_prefix(t.as_slice(), prefix.as_slice()) {
            let v = sub_chars(t.as_slice(), prefix.len(), t.len());
            assert(v@ == t@.skip("-march="@.len() as int));
            if !eq_chars(v.as_slice(), native.as_slice()) && v.len() > 0 {
                return Some(string_of(v.as_slice()));
            }
        }
        i += 1;
    }
    None
}

/// Replace `-march=native` and `-mtune=native` in a CFLAGS string with the
/// resolved architecture.
///
/// Returns `(resolved_cflags, was_modified)`.
pub fn resolve_cflags(cflags: &str, resolved_march: &str) -> (r: (String, bool))
    ensures
        r.0@ == join(
            words(cflags@).map_values(|t: Seq<char>| resolve_token(t, resolved_march@)),
            " "@,
        ),
        r.1 == exists|i: int| 0 <= i < words(cflags@).len() && is_native_token(words(cflags@)[i]),
{
    let cs = chars_of(cflags);
    let m = chars_of(resolved_march);
    let tokens = words_of(cs.as_slice());
    let march_native = chars_of("-march=native");
    let mtune_native = chars_of("-mtune=native");
    let march_prefix = chars_of("-march=");
    let mtune_prefix = chars_of("-mtune=");
    let ghost ws = words(cflags@);
    let ghost mapped = ws.map_values(|t: Seq<char>| resolve_token(t, m@));
    let mut out: Vec<Vec<char>> = Vec::new();
    let mut modified = false;
    let mut i: usize = 0;
    while i < tokens.len()
        invariant
            i <= tokens.len(),
            vv(tokens@) == ws,
            ws == words(cflags@),
            m@ == resolved_march@,
            mapped == ws.map_values(|t: Seq<char>| resolve_token(t, m@)),
            march_native@ == "-march=native"@,
            mtune_native@ == "-mtune=native"@,
            march_prefix@ == "-march="@,
            mtune_prefix@ == "-mtune="@,
            vv(out@) == mapped.take(i as int),
            modified == exists|k: int| 0 <= k < i && is_native_token(ws[k]),
        decreases tokens.len() - i,
    {
        let t = &tokens[i];
        assert(t@ == ws[i as int]);
        let piece = if eq_chars(t.as_slice(), march_native.as_slice()) {
            modified = true;
            concat_chars(march_prefix.as_slice(), m.as_slice())
        } else if eq_chars(t.as_slice(), mtune_native.as_slice()) {
            modified = true;
            concat_chars(mtune_prefix.as_slice(), m.as_slice())
        } else {
            sub_chars(t.as_slice(), 0, t.len())
        };
        proof {
            assert(t@.subrange(0, t@.len() as int) =~= t@);
            assert(piece@ == mapped[i as int]);
        }
        let ghost old_out = out@;
        out.push(piece);
        proof {
            assert(vv(out@) =~= vv(old_out).push(piece@));
            assert(mapped.take(i + 1) =~= mapped.take(i as int).push(mapped[i as int]));
            if is_native_token(ws[i as int]) {
                assert(exists|k: int| 0 <= k < i + 1 && is_native_token(ws[k]));
            }
        }
        i += 1;
    }
    assert(mapped.take(tokens.len() as int) =~= mapped);
    let space = chars_of(" ");
    let joined = join_chars(&out, space.as_slice());
    (string_of(joined.as_slice()), modified)
}

/// The `-march=` value reported by `gcc -march=native -Q --help=target`.
pub fn parse_gcc_march_output(stdout: &str) -> (r: Option<String>)
    ensures
        opt_view(r) == gcc_march(lines(stdout@)),
{
    let cs = chars_of(stdout);
    let ls = lines_of(cs.as_slice());
    let prefix = chars_of("-march=");
    let native = chars_of("native");
    let mut i: usize = 0;
    assert(vv(ls@).skip(0) =~= vv(ls@));
    while i < ls.len()
        invariant
            i <= ls.len(),
            vv(ls@) == lines(stdout@),
            prefix@ == "-march="@,
            native@ == "native"@,
            gcc_march(vv(ls@).skip(i as int)) == gcc_march(lines(stdout@)),
        decreases ls.len() - i,
    {
        let l = &ls[i];
        proof {
            let rest = vv(ls@).skip(i as int);
            assert(rest[0] == l@);
            assert(rest.drop_first() =~= vv(ls@).skip(i + 1));
        }
        let t = trim_chars(l.as_slice());
        if has_prefix(t.as_slice(), prefix.as_slice()) {
            let rest = sub_chars(t.as_slice(), prefix.len(), t.len());
            assert(rest@ == t@.skip("-march="@.len() as int));
            let v = trim_chars(rest.as_slice());
            if v.len() > 0 && !eq_chars(v.as_slice(), native.as_slice()) {
                return Some(string_of(v.as_slice()));
            }
        }
        i += 1;
    }
    None
}

/// Index of the first `c` in `s`.
pub(crate) fn find_char(s: &[char], c: char) -> (r: Option<usize>)
    ensures
        r.is_none() ==> forall|i: int| 0 <= i < s.len() ==> s@[i] != c,
        r.is_some() ==> r.unwrap() < s.len() && s@[r.unwrap() as int] == c && forall|j: int|
            0 <= j < r.unwrap() ==> s@[j] != c,
{
    let mut i: usize = 0;
    while i < s.len()
        invariant
            i <= s.len(),
            forall|j: int| 0 <= j < i ==> s@[j] != c,
        decreases s.len() - i,
    {
        if s[i] == c {
            return Some(i);
        }
        i += 1;
    }
    None
}

proof fn lemma_split_first_piece(s: Seq<char>, c: char, k: int)
    requires
        0 <= k < s.len(),
        s[k] == c,
        forall|j: int| 0 <= j < k ==> s[j] != c,
    ensures
        split_on(s, c).len() >= 2,
        split_on(s, c)[0] == s.take(k),
    decreases s.len(),
{
    if s.len() - 1 > k {
        lemma_split_first_piece(s.drop_last(), c, k);
        assert(s.drop_last().take(k) =~= s.take(k));
    } else {
        lemma_split_no_sep(s.drop_last(), c);
        assert(s.drop_last() =~= s.take(k));
    }
}

proof fn lemma_split_no_sep(s: Seq<char>, c: char)
    requires
        forall|j: int| 0 <= j < s.len() ==> s[j] != c,
    ensures
        split_on(s, c) == seq![s],
    decreases s.len(),
{
    if s.len() > 0 {
        lemma_split_no_sep(s.drop_last(), c);
        assert(s.drop_last().push(s.last()) =~= s);
    } else {
        assert(s =~= Seq::<char>::empty());
    }
}

/// `CPU_FLAGS_*` from the output of `cpuid2cpuflags`.
pub fn parse_cpu_flags_output(stdout: &str) -> (r: Option<(String, Vec<String>)>)
    ensures
        match r {
            Some((var, flags)) => cpu_flags_spec(stdout@) == Some((var@, sv(flags@))),
            None => cpu_flags_spec(stdout@).is_none(),
        },
{
    let cs = chars_of(stdout);
    let line = trim_chars(cs.as_slice());
    match find_char(line.as_slice(), ':') {
        None => {
            proof {
                lemma_split_no_sep(line@, ':');
            }
            None
        },
        Some(k) => {
            proof {
                lemma_split_first_piece(line@, ':', k as int);
            }
            let head = sub_chars(line.as_slice(), 0, k);
            let tail = sub_chars(line.as_slice(), k + 1, line.len());
            assert(head@ == line@.take(k as int));
            assert(tail@ == line@.skip(k + 1));
            let var = trim_chars(head.as_slice());
            let flags = words_of(tail.as_slice());
            if flags.len() > 0 {
                let fs = strings_of(&flags);
                Some((string_of(var.as_slice()), fs))
            } else {
                None
            }
        },
    }
}

/// A probe output trimmed, unless it is empty.
pub fn chost_from_output(stdout: &str) -> (r: Option<String>)
    ensures
        opt_view(r) == nonempty_trimmed(Some(stdout@)),
{
    let cs = chars_of(stdout);
    let t = trim_chars(cs.as_slice());
    if t.len() == 0 {
        None
    } else {
        Some(string_of(t.as_slice()))
    }
}

fn chost_from_opt(o: &Option<String>) -> (r: Option<String>)
    ensures
        opt_view(r) == nonempty_trimmed(opt_view(*o)),
{
    match o {
        Some(s) => chost_from_output(s.as_str()),
        None => None,
    }
}

/// The CHOST guessed from the output of `uname -m`.
pub fn chost_for_arch(arch: &str) -> (r: String)
    ensures
        r@ == chost_for_arch_spec(arch@),
{
    let a = chars_of(arch);
    if eq_chars(a.as_slice(), chars_of("x86_64").as_slice()) {
        "x86_64-pc-linux-gnu".to_string()
    } else if eq_chars(a.as_slice(), chars_of("aarch64").as_slice()) {
        "aarch64-unknown-linux-gnu".to_string()
    } else if eq_chars(a.as_slice(), chars_of("armv7l").as_slice()) {
        "armv7a-unknown-linux-gnueabihf".to_string()
    } else if eq_chars(a.as_slice(), chars_of("i686").as_slice()) {
        "i686-pc-linux-gnu".to_string()
    } else if eq_chars(a.as_slice(), chars_of("riscv64").as_slice()) {
        "riscv64-unknown-linux-gnu".to_string()
    } else if eq_chars(a.as_slice(), chars_of("ppc64le").as_slice()) {
        "powerpc64le-unknown-linux-gnu".to_string()
    } else {
        let r = concat_chars(a.as_slice(), chars_of("-unknown-linux-gnu").as_slice());
        string_of(r.as_slice())
    }
}

/// Resolve compiler and CPU flags from the outputs of the system probes:
/// the `-march=native` expansion (from `resolve-march-native`, else GCC),
/// the `CPU_FLAGS_*` of `cpuid2cpuflags`, and the CHOST (from portageq,
/// else `gcc -dumpmachine`, else guessed from `uname -m`).
pub fn resolve_native_flags(probes: &NativeProbes) -> (r: Result<ResolvedFlags, CflagsError>)
    ensures
        match r {
            Ok(f) => {
                &&& chost_from_probes(*probes) == Some(f.chost@)
                &&& opt_view(f.march) == march_from_probes(*probes)
                &&& match f.cpu_flags {
                    Some((var, flags)) => probes.cpuid2cpuflags.is_some() && cpu_flags_spec(
                        probes.cpuid2cpuflags.unwrap()@,
                    ) == Some((var@, sv(flags@))),
                    None => probes.cpuid2cpuflags.is_none() || cpu_flags_spec(
                        probes.cpuid2cpuflags.unwrap()@,
                    ).is_none(),
                }
            },
            Err(_) => chost_from_probes(*probes).is_none(),
        },
{
    let from_utility = match &probes.resolve_march_native {
        Some(out) => extract_march_value(out.as_str()),
        None => None,
    };
    let march = if from_utility.is_some() {
        from_utility
    } else {
        match &probes.gcc_target_help {
            Some(out) => parse_gcc_march_output(out.as_str()),
            None => None,
        }
    };
    let cpu_flags = match &probes.cpuid2cpuflags {
        Some(out) => parse_cpu_flags_output(out.as_str()),
        None => None,
    };
    let from_portageq = chost_from_opt(&probes.portageq_chost);
    let chost = if from_portageq.is_some() {
        from_portageq.unwrap()
    } else {
        let from_gcc = chost_from_opt(&probes.gcc_dumpmachine);
        if from_gcc.is_some() {
            from_gcc.unwrap()
        } else {
            match &probes.uname_machine {
                Some(m) => {
                    let mc = chars_of(m.as_str());
                    let t = trim_chars(mc.as_slice());
                    let ts = string_of(t.as_slice());
                    chost_for_arch(ts.as_str())
                },
                None => {
                    return Err(CflagsError::UnameFailed);
                },
            }
        }
    };
    Ok(ResolvedFlags { march, cpu_flags, chost })
}

proof fn lemma_first_march(tokens: Seq<Seq<char>>)
    ensures
        first_march(tokens) matches Some(m) ==> m.len() > 0 && m != "native"@,
    decreases tokens.len(),
{
    if tokens.len() > 0 {
        lemma_first_march(tokens.drop_first());
    }
}

proof fn lemma_gcc_march(ls: Seq<Seq<char>>)
    ensures
        gcc_march(ls) matches Some(m) ==> m.len() > 0 && m != "native"@,
    decreases ls.len(),
{
    if ls.len() > 0 {
        lemma_gcc_march(ls.drop_first());
    }
}

/// What the resolved native flags promise, whatever the probes print: a
/// resolved `-march` value is neither empty nor `native`, resolved CPU flags
/// are not empty, a CHOST is never empty, and there is no CHOST only when
/// neither `portageq` nor `gcc` gave one and `uname` could not be run.
pub proof fn law_native_flags_are_usable(p: NativeProbes)
    ensures
        march_from_probes(p) matches Some(m) ==> m.len() > 0 && m != "native"@,
        forall|o: Seq<char>| #[trigger] cpu_flags_spec(o) matches Some((v, f)) ==> f.len() > 0,
        chost_from_probes(p) matches Some(c) ==> c.len() > 0,
        chost_from_probes(p) is None <==> (nonempty_trimmed(opt_view(p.portageq_chost)) is None
            && nonempty_trimmed(opt_view(p.gcc_dumpmachine)) is None && p.uname_machine is None),
{
    match p.resolve_march_native {
        Some(o) => lemma_first_march(words(o@)),
        None => {},
    }
    match p.gcc_target_help {
        Some(o) => lemma_gcc_march(lines(o@)),
        None => {},
    }
    match p.uname_machine {
        Some(m) => {
            let a = trim(m@);
            reveal_strlit("-unknown-linux-gnu");
            assert((a + "-unknown-linux-gnu"@).len() > 0);
            reveal_strlit("x86_64-pc-linux-gnu");
            reveal_strlit("aarch64-unknown-linux-gnu");
            reveal_strlit("armv7a-unknown-linux-gnueabihf");
            reveal_strlit("i686-pc-linux-gnu");
            reveal_strlit("riscv64-unknown-linux-gnu");
            reveal_strlit("powerpc64le-unknown-linux-gnu");
        },
        None => {},
    }
}

/// The flag `resolve_cflags` returns says whether a `-march=native` or
/// `-mtune=native` token was there; when there was none, the resolved
/// CFLAGS are the input's words unchanged; each such token becomes the
/// same option with the resolved architecture; and every other word stays
/// as it was, in its place.
pub proof fn law_resolve_cflags_flags_native_tokens(cflags: Seq<char>, m: Seq<char>)
    ensures
        ({
            let ws = words(cflags);
            let flagged = exists|i: int| 0 <= i < ws.len() && is_native_token(ws[i]);
            let mapped = ws.map_values(|t: Seq<char>| resolve_token(t, m));
            &&& flagged == exists|i: int|
                0 <= i < ws.len() && (#[trigger] ws[i] == "-march=native"@ || ws[i] == "-mtune=native"@)
            &&& !flagged ==> join(mapped, " "@) == join(ws, " "@)
            &&& forall|i: int| 0 <= i < ws.len() && #[trigger] ws[i] == "-march=native"@ ==> mapped[i] == "-march="@ + m
            &&& forall|i: int| 0 <= i < ws.len() && #[trigger] ws[i] == "-mtune=native"@ ==> mapped[i] == "-mtune="@ + m
            &&& mapped.len() == ws.len()
            &&& forall|i: int| 0 <= i < ws.len() && #[trigger] ws[i] != "-march=native"@ && ws[i] != "-mtune=native"@
                ==> mapped[i] == ws[i]
        }),
{
    reveal_strlit("-march=native");
    reveal_strlit("-mtune=native");
    assert("-mtune=native"@[2] != "-march=native"@[2]);
    assert("-mtune=native"@ != "-march=native"@);
    let ws = words(cflags);
    let mapped = ws.map_values(|t: Seq<char>| resolve_token(t, m));
    if exists|i: int| 0 <= i < ws.len() && is_native_token(ws[i]) {
        let i = choose|i: int| 0 <= i < ws.len() && is_native_token(ws[i]);
        assert(ws[i] == "-march=native"@ || ws[i] == "-mtune=native"@);
    }
    if exists|i: int| 0 <= i < ws.len() && (#[trigger] ws[i] == "-march=native"@ || ws[i] == "-mtune=native"@) {
        let i = choose|i: int| 0 <= i < ws.len() && (#[trigger] ws[i] == "-march=native"@ || ws[i] == "-mtune=native"@);
        assert(is_native_token(ws[i]));
    }
    if !(exists|i: int| 0 <= i < ws.len() && is_native_token(ws[i])) {
        assert forall|i: int| 0 <= i < ws.len() implies mapped[i] == ws[i] by {
            assert(!is_native_token(ws[i]));
        }
        assert(mapped =~= ws);
    }
}

} // verus!

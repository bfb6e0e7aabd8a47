//! CLI verbosity level, derived from `-q`/`--quiet` and `-v` flags.
//!
//! Mirrors the Portage convention:
//!   `-q` / `--quiet`  → suppress non-essential output
//!   `-v`              → verbose (one level)
//!   `-v -v` / `-vv`   → debug
//!   `-v -v -v`        → trace
//!
//! When no explicit flag is given, `EMERGE_DEFAULT_OPTS` is inspected so that
//! a `--quiet` or `--verbose` there gives the same behaviour here.
use vstd::prelude::*;

use crate::text::{chars_of, eq_chars, has_prefix, starts_with, sv, vv, words, words_of};

verus! {

/// CLI verbosity level.
#[derive(Debug, Clone, Copy, PartialEq, Eq, Structural, PartialOrd, Ord)]
pub enum Verbosity {
    /// Suppress all non-essential output.
    Quiet,
    /// Standard output (default).
    Normal,
    /// Informational messages and more detailed emerge output (`-v`).
    Verbose,
    /// Debug-level tracing output (`-vv`).
    VerboseDebug,
    /// Trace-level output (`-vvv`).
    VerboseTrace,
}

impl Default for Verbosity {
    fn default() -> (r: Self)
        ensures
            r == Verbosity::Normal,
    {
        Verbosity::Normal
    }
}

/// The position of a level in the order `Quiet < Normal < Verbose < VerboseDebug < VerboseTrace`.
pub open spec fn rank(v: Verbosity) -> int {
    match v {
        Verbosity::Quiet => 0,
        Verbosity::Normal => 1,
        Verbosity::Verbose => 2,
        Verbosity::VerboseDebug => 3,
        Verbosity::VerboseTrace => 4,
    }
}

/// The level reached by a number of `-v` flags.
pub open spec fn level_for_count(count: u8) -> Verbosity {
    if count == 0 {
        Verbosity::Normal
    } else if count == 1 {
        Verbosity::Verbose
    } else if count == 2 {
        Verbosity::VerboseDebug
    } else {
        Verbosity::VerboseTrace
    }
}

pub open spec fn sat_add(a: u8, b: int) -> u8 {
    if a + b > u8::MAX {
        u8::MAX
    } else {
        (a + b) as u8
    }
}

/// What one token of `EMERGE_DEFAULT_OPTS` (or one command line argument)
/// contributes: forcing quiet, adding verbose flags, or nothing.
pub enum FlagEffect {
    Quiet,
    AddVerbose(u8),
    Ignore,
}

/// A cluster `-xyz` whose letters after the dash all satisfy `ok`.
pub open spec fn is_cluster(t: Seq<char>, v_only: bool) -> bool {
    &&& t.len() > 0
    &&& t[0] == '-'
    &&& forall|k: int|
        1 <= k < t.len() ==> (#[trigger] t[k] == 'v' || (!v_only && t[k] == 'q'))
}

/// Effect of a token of `EMERGE_DEFAULT_OPTS`.  A cluster counts each of
/// its letters, the count taken modulo 256 as the original narrows it to `u8`.
pub open spec fn opts_token_effect(t: Seq<char>) -> FlagEffect {
    if t == "--quiet"@ || t == "-q"@ {
        FlagEffect::Quiet
    } else if t == "--verbose"@ || t == "-v"@ {
        FlagEffect::AddVerbose(1)
    } else if t.len() > 1 && is_cluster(t, false) {
        if t[1] == 'q' {
            FlagEffect::Quiet
        } else {
            FlagEffect::AddVerbose(((t.len() - 1) % 256) as u8)
        }
    } else {
        FlagEffect::Ignore
    }
}

/// Effect of a raw command line argument seen before full argument parsing.
pub open spec fn arg_effect(t: Seq<char>) -> FlagEffect {
    if t == "-q"@ || t == "--quiet"@ {
        FlagEffect::Quiet
    } else if t == "-v"@ {
        FlagEffect::AddVerbose(1)
    } else if is_cluster(t, true) && !starts_with(t, "--"@) {
        FlagEffect::AddVerbose(((t.len() - 1) % 256) as u8)
    } else {
        FlagEffect::Ignore
    }
}

/// Scans tokens left to right; `None` means a quiet flag was met.
pub open spec fn scan_effects(effects: Seq<FlagEffect>, count: u8) -> Option<u8>
    decreases effects.len(),
{
    if effects.len() == 0 {
        Some(count)
    } else {
        match effects[0] {
            FlagEffect::Quiet => None,
            FlagEffect::AddVerbose(k) => scan_effects(effects.drop_first(), sat_add(count, k as int)),
            FlagEffect::Ignore => scan_effects(effects.drop_first(), count),
        }
    }
}

pub open spec fn level_of_scan(r: Option<u8>) -> Verbosity {
    match r {
        None => Verbosity::Quiet,
        Some(c) => level_for_count(c),
    }
}

/// Verbosity expressed by an `EMERGE_DEFAULT_OPTS` value.
pub open spec fn opts_verbosity(opts: Seq<char>) -> Verbosity {
    level_of_scan(scan_effects(words(opts).map_values(|t: Seq<char>| opts_token_effect(t)), 0))
}

/// Verbosity expressed by raw command line arguments.
pub open spec fn args_verbosity(args: Seq<Seq<char>>) -> Verbosity {
    level_of_scan(scan_effects(args.map_values(|t: Seq<char>| arg_effect(t)), 0))
}

/// Verbosity from the parsed `-q` flag and `-v` count, falling back to
/// `EMERGE_DEFAULT_OPTS` when neither is given.
pub open spec fn flags_verbosity(quiet: bool, verbose_count: u8, opts: Seq<char>) -> Verbosity {
    if quiet {
        Verbosity::Quiet
    } else if verbose_count == 0 {
        opts_verbosity(opts)
    } else {
        level_for_count(verbose_count)
    }
}

proof fn lemma_scan_verbose_run(k: nat, c: u8)
    requires
        c + k <= 255,
    ensures
        scan_effects(Seq::new(k, |i: int| FlagEffect::AddVerbose(1)), c) == Some((c + k) as u8),
    decreases k,
{
    let e = Seq::new(k, |i: int| FlagEffect::AddVerbose(1));
    if k > 0 {
        assert(e.drop_first() =~= Seq::new((k - 1) as nat, |i: int| FlagEffect::AddVerbose(1)));
        lemma_scan_verbose_run((k - 1) as nat, (c + 1) as u8);
    }
}

/// How many `-v` flags give which level: one is verbose, two is debug, and
/// three or more is trace; `-q` is quiet whatever the count; and the level
/// of `n` flags is the one that the same `n` flags give when the command
/// line is read before parsing.
pub proof fn law_verbose_count_levels(n: u8, opts: Seq<char>)
    ensures
        flags_verbosity(true, n, opts) == Verbosity::Quiet,
        n == 1 ==> flags_verbosity(false, n, opts) == Verbosity::Verbose,
        n == 2 ==> flags_verbosity(false, n, opts) == Verbosity::VerboseDebug,
        n >= 3 ==> flags_verbosity(false, n, opts) == Verbosity::VerboseTrace,
        n >= 1 ==> flags_verbosity(false, n, opts) == args_verbosity(
            Seq::new(n as nat, |i: int| "-v"@),
        ),
{
    reveal_strlit("-v");
    reveal_strlit("-q");
    reveal_strlit("--quiet");
    let args = Seq::new(n as nat, |i: int| "-v"@);
    assert("-v"@ != "-q"@) by {
        assert("-v"@[1] != "-q"@[1]);
    }
    assert("-v"@ != "--quiet"@) by {
        assert("-v"@.len() != "--quiet"@.len());
    }
    assert(args.map_values(|t: Seq<char>| arg_effect(t)) =~= Seq::new(
        n as nat,
        |i: int| FlagEffect::AddVerbose(1),
    ));
    lemma_scan_verbose_run(n as nat, 0);
}

proof fn lemma_scan_quiet(e: Seq<FlagEffect>, c: u8)
    requires
        exists|i: int| 0 <= i < e.len() && #[trigger] e[i] is Quiet,
    ensures
        scan_effects(e, c) is None,
    decreases e.len(),
{
    if !(e[0] is Quiet) {
        let i = choose|i: int| 0 <= i < e.len() && #[trigger] e[i] is Quiet;
        assert(e.drop_first()[i - 1] is Quiet);
        match e[0] {
            FlagEffect::AddVerbose(k) => lemma_scan_quiet(e.drop_first(), sat_add(c, k as int)),
            _ => lemma_scan_quiet(e.drop_first(), c),
        }
    }
}

proof fn lemma_scan_no_quiet(e: Seq<FlagEffect>, c: u8)
    requires
        forall|i: int| 0 <= i < e.len() ==> !(#[trigger] e[i] is Quiet),
    ensures
        scan_effects(e, c) is Some,
        scan_effects(e, c)->0 >= c,
        (forall|i: int| 0 <= i < e.len() ==> #[trigger] e[i] is Ignore) ==> scan_effects(e, c)
            == Some(c),
        (exists|i: int| 0 <= i < e.len() && (#[trigger] e[i] matches FlagEffect::AddVerbose(k) && k >= 1))
            ==> scan_effects(e, c)->0 >= 1,
    decreases e.len(),
{
    if e.len() > 0 {
        let t = e.drop_first();
        assert forall|i: int| 0 <= i < t.len() implies !(#[trigger] t[i] is Quiet) by {
            assert(t[i] == e[i + 1]);
        }
        let c2 = match e[0] {
            FlagEffect::AddVerbose(k) => sat_add(c, k as int),
            _ => c,
        };
        lemma_scan_no_quiet(t, c2);
        if forall|i: int| 0 <= i < e.len() ==> #[trigger] e[i] is Ignore {
            assert(e[0] is Ignore);
            assert forall|i: int| 0 <= i < t.len() implies #[trigger] t[i] is Ignore by {
                assert(t[i] == e[i + 1]);
            }
        }
        if exists|i: int| 0 <= i < e.len() && (#[trigger] e[i] matches FlagEffect::AddVerbose(k) && k >= 1) {
            let i = choose|i: int| 0 <= i < e.len() && (#[trigger] e[i] matches FlagEffect::AddVerbose(k) && k >= 1);
            if i > 0 {
                assert(t[i - 1] == e[i]);
            }
        }
    }
}

/// The fallback on `EMERGE_DEFAULT_OPTS` when neither `-q` nor `-v` is
/// given: a `--quiet` or `-q` word there makes the output quiet; a
/// `--verbose` or `-v` word, with no word there that asks for quiet, makes
/// it at least verbose; and words that are no options leave it normal.
pub proof fn law_default_opts_fallback(opts: Seq<char>)
    ensures
        ({
            let ws = words(opts);
            &&& (exists|i: int| 0 <= i < ws.len() && (#[trigger] ws[i] == "--quiet"@ || ws[i] == "-q"@))
                ==> flags_verbosity(false, 0, opts) == Verbosity::Quiet
            &&& (exists|i: int| 0 <= i < ws.len() && (#[trigger] ws[i] == "--verbose"@ || ws[i] == "-v"@))
                && (forall|i: int| 0 <= i < ws.len() ==> #[trigger] ws[i] != "--quiet"@
                    && !(ws[i].len() >= 2 && ws[i][0] == '-' && ws[i][1] == 'q'))
                ==> rank(flags_verbosity(false, 0, opts)) >= rank(Verbosity::Verbose)
            &&& (forall|i: int| 0 <= i < ws.len() ==> (#[trigger] ws[i]).len() == 0 || ws[i][0] != '-')
                ==> flags_verbosity(false, 0, opts) == Verbosity::Normal
        }),
{
    reveal_strlit("--quiet");
    reveal_strlit("-q");
    reveal_strlit("--verbose");
    reveal_strlit("-v");
    let ws = words(opts);
    let e = ws.map_values(|t: Seq<char>| opts_token_effect(t));
    assert(opts_verbosity(opts) == level_of_scan(scan_effects(e, 0)));
    if exists|i: int| 0 <= i < ws.len() && (#[trigger] ws[i] == "--quiet"@ || ws[i] == "-q"@) {
        let i = choose|i: int| 0 <= i < ws.len() && (#[trigger] ws[i] == "--quiet"@ || ws[i] == "-q"@);
        assert(e[i] is Quiet);
        lemma_scan_quiet(e, 0);
    }
    if forall|i: int| 0 <= i < ws.len() ==> #[trigger] ws[i] != "--quiet"@
        && !(ws[i].len() >= 2 && ws[i][0] == '-' && ws[i][1] == 'q') {
        assert forall|i: int| 0 <= i < e.len() implies !(#[trigger] e[i] is Quiet) by {
            let t = ws[i];
            assert(e[i] == opts_token_effect(t));
            if t == "-q"@ {
                assert(t[1] == 'q');
            }
        }
        lemma_scan_no_quiet(e, 0);
        if exists|i: int| 0 <= i < ws.len() && (#[trigger] ws[i] == "--verbose"@ || ws[i] == "-v"@) {
            let i = choose|i: int| 0 <= i < ws.len() && (#[trigger] ws[i] == "--verbose"@ || ws[i] == "-v"@);
            assert(ws[i] != "--quiet"@);
            assert(ws[i] != "-q"@) by {
                if ws[i] == "-q"@ {
                    assert(ws[i][1] == 'q');
                }
            }
            assert(e[i] == FlagEffect::AddVerbose(1));
        }
    }
    if forall|i: int| 0 <= i < ws.len() ==> (#[trigger] ws[i]).len() == 0 || ws[i][0] != '-' {
        assert forall|i: int| 0 <= i < e.len() implies #[trigger] e[i] is Ignore by {
            let t = ws[i];
            assert(e[i] == opts_token_effect(t));
            if t.len() > 0 {
                assert(t != "--quiet"@ && t != "-q"@ && t != "--verbose"@ && t != "-v"@) by {
                    assert("--quiet"@[0] == '-' && "-q"@[0] == '-' && "--verbose"@[0] == '-' && "-v"@[0] == '-');
                }
                assert(!is_cluster(t, false));
            } else {
                assert(t != "--quiet"@ && t != "-q"@ && t != "--verbose"@ && t != "-v"@) by {
                    assert("--quiet"@.len() > 0 && "-q"@.len() > 0 && "--verbose"@.len() > 0 && "-v"@.len() > 0);
                }
            }
        }
        assert forall|i: int| 0 <= i < e.len() implies !(#[trigger] e[i] is Quiet) by {
            assert(e[i] is Ignore);
        }
        lemma_scan_no_quiet(e, 0);
    }
}

/// Reading the raw command line: a `-q` or `--quiet` argument makes the
/// output quiet, whatever else is given; `-v` arguments with no quiet one
/// make it at least verbose; and arguments that are no options leave it
/// normal.
pub proof fn law_early_detect_flags(args: Seq<Seq<char>>)
    ensures
        (exists|i: int| 0 <= i < args.len() && (#[trigger] args[i] == "-q"@ || args[i] == "--quiet"@))
            ==> args_verbosity(args) == Verbosity::Quiet,
        (exists|i: int| 0 <= i < args.len() && #[trigger] args[i] == "-v"@) && (forall|i: int|
            0 <= i < args.len() ==> #[trigger] args[i] != "-q"@ && args[i] != "--quiet"@)
            ==> rank(args_verbosity(args)) >= rank(Verbosity::Verbose),
        (forall|i: int| 0 <= i < args.len() ==> (#[trigger] args[i]).len() == 0 || args[i][0] != '-')
            ==> args_verbosity(args) == Verbosity::Normal,
{
    reveal_strlit("--quiet");
    reveal_strlit("-q");
    reveal_strlit("-v");
    let e = args.map_values(|t: Seq<char>| arg_effect(t));
    if exists|i: int| 0 <= i < args.len() && (#[trigger] args[i] == "-q"@ || args[i] == "--quiet"@) {
        let i = choose|i: int| 0 <= i < args.len() && (#[trigger] args[i] == "-q"@ || args[i] == "--quiet"@);
        assert(e[i] is Quiet);
        lemma_scan_quiet(e, 0);
    }
    if forall|i: int| 0 <= i < args.len() ==> #[trigger] args[i] != "-q"@ && args[i] != "--quiet"@ {
        assert forall|i: int| 0 <= i < e.len() implies !(#[trigger] e[i] is Quiet) by {
            assert(e[i] == arg_effect(args[i]));
        }
        lemma_scan_no_quiet(e, 0);
        if exists|i: int| 0 <= i < args.len() && #[trigger] args[i] == "-v"@ {
            let i = choose|i: int| 0 <= i < args.len() && #[trigger] args[i] == "-v"@;
            assert(e[i] == FlagEffect::AddVerbose(1));
        }
    }
    if forall|i: int| 0 <= i < args.len() ==> (#[trigger] args[i]).len() == 0 || args[i][0] != '-' {
        assert forall|i: int| 0 <= i < e.len() implies #[trigger] e[i] is Ignore by {
            let t = args[i];
            assert(e[i] == arg_effect(t));
            if t.len() > 0 {
                assert(t != "--quiet"@ && t != "-q"@ && t != "-v"@) by {
                    assert("--quiet"@[0] == '-' && "-q"@[0] == '-' && "-v"@[0] == '-');
                }
                assert(!is_cluster(t, true));
            } else {
                assert(t != "--quiet"@ && t != "-q"@ && t != "-v"@) by {
                    assert("--quiet"@.len() > 0 && "-q"@.len() > 0 && "-v"@.len() > 0);
                }
            }
        }
        assert forall|i: int| 0 <= i < e.len() implies !(#[trigger] e[i] is Quiet) by {
            assert(e[i] is Ignore);
        }
        lemma_scan_no_quiet(e, 0);
    }
}

proof fn lemma_scan_step(effects: Seq<FlagEffect>, i: int, count: u8)
    requires
        0 <= i < effects.len(),
    ensures
        scan_effects(effects.skip(i), count) == match effects[i] {
            FlagEffect::Quiet => None,
            FlagEffect::AddVerbose(k) => scan_effects(effects.skip(i + 1), sat_add(count, k as int)),
            FlagEffect::Ignore => scan_effects(effects.skip(i + 1), count),
        },
{
    assert(effects.skip(i).drop_first() =~= effects.skip(i + 1));
}

fn saturating_add_u8(a: u8, b: u8) -> (r: u8)
    ensures
        r == sat_add(a, b as int),
{
    if a > u8::MAX - b {
        u8::MAX
    } else {
        a + b
    }
}

fn count_to_level(count: u8) -> (r: Verbosity)
    ensures
        r == level_for_count(count),
{
    match count {
        0 => Verbosity::Normal,
        1 => Verbosity::Verbose,
        2 => Verbosity::VerboseDebug,
        _ => Verbosity::VerboseTrace,
    }
}

fn cluster_check(t: &Vec<char>, v_only: bool) -> (r: bool)
    ensures
        r == is_cluster(t@, v_only),
{
    if t.len() == 0 || t[0] != '-' {
        return false;
    }
    let mut k: usize = 1;
    while k < t.len()
        invariant
            1 <= k <= t.len(),
            forall|j: int| 1 <= j < k ==> (#[trigger] t@[j] == 'v' || (!v_only && t@[j] == 'q')),
        decreases t.len() - k,
    {
        let c = t[k];
        if !(c == 'v' || (!v_only && c == 'q')) {
            return false;
        }
        k += 1;
    }
    true
}

/// Number of letters after the dash of a cluster, narrowed to `u8`.
fn cluster_len(t: &Vec<char>) -> (r: u8)
    requires
        t.len() >= 1,
    ensures
        r == ((t.len() - 1) % 256) as u8,
{
    ((t.len() - 1) % 256) as u8
}

fn opts_effect_exec(t: &Vec<char>) -> (r: FlagEffect)
    ensures
        r == opts_token_effect(t@),
{
    let quiet_long = chars_of("--quiet");
    let quiet_short = chars_of("-q");
    let verbose_long = chars_of("--verbose");
    let verbose_short = chars_of("-v");
    if eq_chars(t, &quiet_long) || eq_chars(t, &quiet_short) {
        FlagEffect::Quiet
    } else if eq_chars(t, &verbose_long) || eq_chars(t, &verbose_short) {
        FlagEffect::AddVerbose(1)
    } else if t.len() > 1 && cluster_check(t, false) {
        if t[1] == 'q' {
            FlagEffect::Quiet
        } else {
            FlagEffect::AddVerbose(cluster_len(t))
        }
    } else {
        FlagEffect::Ignore
    }
}

fn arg_effect_exec(t: &Vec<char>) -> (r: FlagEffect)
    ensures
        r == arg_effect(t@),
{
    let quiet_long = chars_of("--quiet");
    let quiet_short = chars_of("-q");
    let verbose_short = chars_of("-v");
    let double_dash = chars_of("--");
    if eq_chars(t, &quiet_short) || eq_chars(t, &quiet_long) {
        FlagEffect::Quiet
    } else if eq_chars(t, &verbose_short) {
        FlagEffect::AddVerbose(1)
    } else if cluster_check(t, true) && !has_prefix(t, &double_dash) {
        FlagEffect::AddVerbose(cluster_len(t))
    } else {
        FlagEffect::Ignore
    }
}

/// The `RUST_LOG` level of a verbosity.
pub open spec fn log_level_text(v: Verbosity) -> Seq<char> {
    match v {
        Verbosity::Quiet => "error"@,
        Verbosity::Normal => "warn"@,
        Verbosity::Verbose => "info"@,
        Verbosity::VerboseDebug => "debug"@,
        Verbosity::VerboseTrace => "trace"@,
    }
}

impl Verbosity {
    /// Derive verbosity from explicit flags.
    ///
    /// If no explicit flags are given, falls back to parsing
    /// `emerge_default_opts` (the value of `EMERGE_DEFAULT_OPTS`).
    pub fn from_flags(quiet: bool, verbose_count: u8, emerge_default_opts: &str) -> (r: Self)
        ensures
            r == flags_verbosity(quiet, verbose_count, emerge_default_opts@),
    {
        if quiet {
            return Verbosity::Quiet;
        }
        match verbose_count {
            0 => Self::from_emerge_default_opts(emerge_default_opts),
            1 => Verbosity::Verbose,
            2 => Verbosity::VerboseDebug,
            _ => Verbosity::VerboseTrace,
        }
    }

    /// Quick pre-parse of raw arguments (without the program name) to detect
    /// verbosity before full argument parsing runs.
    pub fn early_detect(args: &[String]) -> (r: Self)
        ensures
            r == args_verbosity(sv(args@)),
    {
        let ghost effects = sv(args@).map_values(|t: Seq<char>| arg_effect(t));
        let mut count: u8 = 0;
        let mut i: usize = 0;
        assert(effects.skip(0) =~= effects);
        while i < args.len()
            invariant
                i <= args.len(),
                effects == sv(args@).map_values(|t: Seq<char>| arg_effect(t)),
                effects.len() == args.len(),
                scan_effects(effects.skip(i as int), count) == scan_effects(effects, 0),
            decreases args.len() - i,
        {
            let t = chars_of(args[i].as_str());
            let e = arg_effect_exec(&t);
            proof {
                assert(effects[i as int] == arg_effect(t@));
                lemma_scan_step(effects, i as int, count);
            }
            match e {
                FlagEffect::Quiet => {
                    return Verbosity::Quiet;
                },
                FlagEffect::AddVerbose(k) => {
                    count = saturating_add_u8(count, k);
                },
                FlagEffect::Ignore => {},
            }
            i += 1;
        }
        assert(effects.skip(args.len() as int) =~= Seq::<FlagEffect>::empty());
        count_to_level(count)
    }

    /// Parse verbosity from an `EMERGE_DEFAULT_OPTS` value.
    pub fn from_emerge_default_opts(opts: &str) -> (r: Self)
        ensures
            r == opts_verbosity(opts@),
    {
        let cs = chars_of(opts);
        let tokens = words_of(cs.as_slice());
        let ghost effects = words(opts@).map_values(|t: Seq<char>| opts_token_effect(t));
        let mut count: u8 = 0;
        let mut i: usize = 0;
        assert(effects.skip(0) =~= effects);
        assert(vv(tokens@).len() == tokens.len());
        while i < tokens.len()
            invariant
                i <= tokens.len(),
                vv(tokens@) == words(opts@),
                effects == words(opts@).map_values(|t: Seq<char>| opts_token_effect(t)),
                effects.len() == tokens.len(),
                scan_effects(effects.skip(i as int), count) == scan_effects(effects, 0),
            decreases tokens.len() - i,
        {
            let e = opts_effect_exec(&tokens[i]);
            proof {
                assert(vv(tokens@)[i as int] == tokens@[i as int]@);
                assert(effects[i as int] == opts_token_effect(tokens@[i as int]@));
                lemma_scan_step(effects, i as int, count);
            }
            match e {
                FlagEffect::Quiet => {
                    return Verbosity::Quiet;
                },
                FlagEffect::AddVerbose(k) => {
                    count = saturating_add_u8(count, k);
                },
                FlagEffect::Ignore => {},
            }
            i += 1;
        }
        assert(effects.skip(tokens.len() as int) =~= Seq::<FlagEffect>::empty());
        count_to_level(count)
    }

    /// The `RUST_LOG` level string used when `RUST_LOG` is not set.
    pub fn rust_log_level(self) -> (r: &'static str)
        ensures
            r@ == log_level_text(self),
    {
        match self {
            Verbosity::Quiet => "error",
            Verbosity::Normal => "warn",
            Verbosity::Verbose => "info",
            Verbosity::VerboseDebug => "debug",
            Verbosity::VerboseTrace => "trace",
        }
    }

    /// The emerge flag to inject into the emerge arguments of a workorder,
    /// if any.
    pub fn emerge_flag(self) -> (r: Option<&'static str>)
        ensures
            self == Verbosity::Quiet ==> r.is_some() && r.unwrap()@ == "--quiet"@,
            self == Verbosity::Normal ==> r.is_none(),
            rank(self) >= 2 ==> r.is_some() && r.unwrap()@ == "--verbose"@,
    {
        match self {
            Verbosity::Quiet => Some("--quiet"),
            Verbosity::Normal => None,
            Verbosity::Verbose | Verbosity::VerboseDebug | Verbosity::VerboseTrace => {
                Some("--verbose")
            },
        }
    }

    /// Whether this level shows informational messages.
    pub fn is_verbose(self) -> (r: bool)
        ensures
            r == (rank(self) >= rank(Verbosity::Verbose)),
    {
        match self {
            Verbosity::Verbose | Verbosity::VerboseDebug | Verbosity::VerboseTrace => true,
            _ => false,
        }
    }

    /// Whether this level suppresses non-essential messages.
    pub fn is_quiet(self) -> (r: bool)
        ensures
            r == (self == Verbosity::Quiet),
    {
        match self {
            Verbosity::Quiet => true,
            _ => false,
        }
    }
}

} // verus!

//! Decisions of the workorder queue: which workorder runs next, what a line
//! of emerge output means, and what result a finished build reports.
use vstd::prelude::*;

use crate::repo::{package_base, PackageMeta};
use crate::text::{chars_of, concat_chars, string_of, sub_chars};

verus! {

/// Pattern of the line that starts a package build; group 1 is the atom.
pub const RE_EMERGING: &'static str = r">>> Emerging \(\d+ of \d+\) (.+)::";

/// Pattern of the line that ends a package build; group 1 is the atom.
pub const RE_COMPLETED: &'static str = r">>> Completed \(\d+ of \d+\) (.+)::";

/// Pattern of an ebuild failure; group 1 is the atom.
pub const RE_ERROR: &'static str = r"\* ERROR: (.+)::(\S+) failed";

/// Pattern of an unsatisfiable dependency; group 1 is the dependency.
pub const RE_MISSING_DEP: &'static str = r#"emerge: there are no ebuilds to satisfy "(.+?)""#;

/// Pattern of a required USE change.
pub const RE_USE_CONFLICT: &'static str = r"The following USE changes are necessary";

/// Pattern of a fetch failure.
pub const RE_FETCH_FAIL: &'static str = r"(?:Couldn't download|!!! Fetch failed)";

/// What `regex::Regex::captures` finds in a text for a pattern: `None` when
/// the pattern does not compile or does not match, else group 1 if it took
/// part in the match.
pub uninterp spec fn regex_group1(pattern: Seq<char>, text: Seq<char>) -> Option<Option<Seq<char>>>;

/// What `regex::Regex::is_match` says of a text for a pattern (`false` when
/// the pattern does not compile).
pub uninterp spec fn regex_is_match(pattern: Seq<char>, text: Seq<char>) -> bool;

/// Matches `pattern` against `text` with `regex::Regex::captures` and
/// returns group 1.
///
/// Trusted: the result is the value that `regex_group1` names for the
/// pattern and the text; the regex semantics are not stated here.
#[verifier::external_body]
fn regex_captures_group1(pattern: &str, text: &str) -> (r: Option<Option<String>>)
    ensures
        match (r, regex_group1(pattern@, text@)) {
            (None, None) => true,
            (Some(None), Some(None)) => true,
            (Some(Some(a)), Some(Some(b))) => a@ == b,
            _ => false,
        },
{
    match regex::Regex::new(pattern) {
        Ok(re) => re.captures(text).map(|c| c.get(1).map(|m| m.as_str().to_string())),
        Err(_) => None,
    }
}

/// Tests `text` against `pattern` with `regex::Regex::is_match`.
///
/// Trusted: the result is the value that `regex_is_match` names.
#[verifier::external_body]
fn regex_matches(pattern: &str, text: &str) -> (r: bool)
    ensures
        r == regex_is_match(pattern@, text@),
{
    match regex::Regex::new(pattern) {
        Ok(re) => re.is_match(text),
        Err(_) => false,
    }
}

/// The results of the emerge-output patterns on one line.
pub struct EmergeCaptures {
    pub emerging: Option<Option<String>>,
    pub completed: Option<Option<String>>,
    pub error: Option<Option<String>>,
    pub missing_dep: Option<Option<String>>,
    pub use_conflict: bool,
    pub fetch_fail: bool,
}

/// What a line of emerge output means for the build being watched.
#[derive(Debug, Clone, PartialEq, Eq)]
pub enum EmergeLineAction {
    /// The line means nothing to the watcher.
    Ignore,
    /// A package build started; it becomes the current package.
    StartPackage(String),
    /// A package build completed; `timed` when it is the current package,
    /// whose elapsed time is then its duration (else the duration is 0).
    /// The current package is cleared.
    Built { atom: String, timed: bool },
    /// A package failed.
    Failed { atom: String, reason: String },
}

pub open spec fn opt_text(o: Option<String>) -> Option<Seq<char>> {
    match o {
        Some(s) => Some(s@),
        None => None,
    }
}

/// The action of a line, from the pattern results, in the order the
/// patterns are tried; the first pattern that matches decides, even when
/// its group took no part.
pub open spec fn line_action(
    line: Seq<char>,
    emerging: Option<Option<Seq<char>>>,
    completed: Option<Option<Seq<char>>>,
    error: Option<Option<Seq<char>>>,
    missing_dep: Option<Option<Seq<char>>>,
    use_conflict: bool,
    fetch_fail: bool,
    current: Option<Seq<char>>,
    r: EmergeLineAction,
) -> bool {
    let cur: Seq<char> = match current {
        Some(c) => c,
        None => "unknown"@,
    };
    if emerging is Some {
        match emerging->0 {
            Some(a) => r matches EmergeLineAction::StartPackage(x) && x@ == a,
            None => r == EmergeLineAction::Ignore,
        }
    } else if completed is Some {
        match completed->0 {
            Some(a) => r matches EmergeLineAction::Built { atom, timed } && atom@ == a && timed
                == (current == Some(a)),
            None => r == EmergeLineAction::Ignore,
        }
    } else if error is Some {
        match error->0 {
            Some(a) => r matches EmergeLineAction::Failed { atom, reason } && atom@ == a && reason@
                == line,
            None => r == EmergeLineAction::Ignore,
        }
    } else if missing_dep is Some {
        match missing_dep->0 {
            Some(a) => r matches EmergeLineAction::Failed { atom, reason } && atom@ == a && reason@
                == "Missing dependency: "@ + line,
            None => r == EmergeLineAction::Ignore,
        }
    } else if use_conflict {
        r matches EmergeLineAction::Failed { atom, reason } && atom@ == cur && reason@
            == "USE flag conflict: "@ + line
    } else if fetch_fail {
        r matches EmergeLineAction::Failed { atom, reason } && atom@ == cur && reason@
            == "Fetch failure: "@ + line
    } else {
        r == EmergeLineAction::Ignore
    }
}

fn copy_opt(o: &Option<String>) -> (r: Option<String>)
    ensures
        opt_text(r) == opt_text(*o),
{
    match o {
        Some(s) => Some(s.clone()),
        None => None,
    }
}

fn prefixed(p: &str, line: &str) -> (r: String)
    ensures
        r@ == p@ + line@,
{
    string_of(concat_chars(chars_of(p).as_slice(), chars_of(line).as_slice()).as_slice())
}

/// Decides what a line of emerge output means, given the pattern results
/// on it and the package currently building.
pub fn classify_emerge_line(line: &str, caps: &EmergeCaptures, current: Option<&str>) -> (r:
    EmergeLineAction)
    ensures
        line_action(
            line@,
            match caps.emerging {
                Some(g) => Some(opt_text(g)),
                None => None,
            },
            match caps.completed {
                Some(g) => Some(opt_text(g)),
                None => None,
            },
            match caps.error {
                Some(g) => Some(opt_text(g)),
                None => None,
            },
            match caps.missing_dep {
                Some(g) => Some(opt_text(g)),
                None => None,
            },
            caps.use_conflict,
            caps.fetch_fail,
            match current {
                Some(c) => Some(c@),
                None => None,
            },
            r,
        ),
{
    let cur: String = match current {
        Some(c) => string_of(chars_of(c).as_slice()),
        None => string_of(chars_of("unknown").as_slice()),
    };
    if let Some(g) = &caps.emerging {
        match g {
            Some(a) => EmergeLineAction::StartPackage(a.clone()),
            None => EmergeLineAction::Ignore,
        }
    } else if let Some(g) = &caps.completed {
        match g {
            Some(a) => {
                let timed = match current {
                    Some(c) => crate::text::eq_chars(
                        chars_of(c).as_slice(),
                        chars_of(a.as_str()).as_slice(),
                    ),
                    None => false,
                };
                EmergeLineAction::Built { atom: a.clone(), timed }
            },
            None => EmergeLineAction::Ignore,
        }
    } else if let Some(g) = &caps.error {
        match g {
            Some(a) => EmergeLineAction::Failed {
                atom: a.clone(),
                reason: string_of(chars_of(line).as_slice()),
            },
            None => EmergeLineAction::Ignore,
        }
    } else if let Some(g) = &caps.missing_dep {
        match g {
            Some(a) => EmergeLineAction::Failed {
                atom: a.clone(),
                reason: prefixed("Missing dependency: ", line),
            },
            None => EmergeLineAction::Ignore,
        }
    } else if caps.use_conflict {
        EmergeLineAction::Failed { atom: cur, reason: prefixed("USE flag conflict: ", line) }
    } else if caps.fetch_fail {
        EmergeLineAction::Failed { atom: cur, reason: prefixed("Fetch failure: ", line) }
    } else {
        EmergeLineAction::Ignore
    }
}

/// Runs the emerge-output patterns on a line, trying them in order.
pub fn emerge_line_captures(line: &str) -> (r: EmergeCaptures)
    ensures
        opt_group(r.emerging) == regex_group1(RE_EMERGING@, line@),
        regex_group1(RE_EMERGING@, line@) is None ==> opt_group(r.completed) == regex_group1(
            RE_COMPLETED@,
            line@,
        ),
        regex_group1(RE_EMERGING@, line@) is None && regex_group1(RE_COMPLETED@, line@) is None
            ==> opt_group(r.error) == regex_group1(RE_ERROR@, line@),
        regex_group1(RE_EMERGING@, line@) is None && regex_group1(RE_COMPLETED@, line@) is None
            && regex_group1(RE_ERROR@, line@) is None ==> opt_group(r.missing_dep) == regex_group1(
            RE_MISSING_DEP@,
            line@,
        ),
        r.use_conflict == regex_is_match(RE_USE_CONFLICT@, line@),
        r.fetch_fail == regex_is_match(RE_FETCH_FAIL@, line@),
{
    let emerging = regex_captures_group1(RE_EMERGING, line);
    let completed = if emerging.is_none() {
        regex_captures_group1(RE_COMPLETED, line)
    } else {
        None
    };
    let error = if emerging.is_none() && completed.is_none() {
        regex_captures_group1(RE_ERROR, line)
    } else {
        None
    };
    let missing_dep = if emerging.is_none() && completed.is_none() && error.is_none() {
        regex_captures_group1(RE_MISSING_DEP, line)
    } else {
        None
    };
    EmergeCaptures {
        emerging,
        completed,
        error,
        missing_dep,
        use_conflict: regex_matches(RE_USE_CONFLICT, line),
        fetch_fail: regex_matches(RE_FETCH_FAIL, line),
    }
}

pub open spec fn opt_group(g: Option<Option<String>>) -> Option<Option<Seq<char>>> {
    match g {
        Some(x) => Some(opt_text(x)),
        None => None,
    }
}

/// What a complete line of emerge output means for the build being
/// watched, the patterns matched with the regex crate.
pub fn match_emerge_line(line: &str, current: Option<&str>) -> (r: EmergeLineAction)
    ensures
        line_action(
            line@,
            regex_group1(RE_EMERGING@, line@),
            regex_group1(RE_COMPLETED@, line@),
            regex_group1(RE_ERROR@, line@),
            regex_group1(RE_MISSING_DEP@, line@),
            regex_is_match(RE_USE_CONFLICT@, line@),
            regex_is_match(RE_FETCH_FAIL@, line@),
            match current {
                Some(c) => Some(c@),
                None => None,
            },
            r,
        ),
{
    let caps = emerge_line_captures(line);
    classify_emerge_line(line, &caps, current)
}

/// A binary package that a build produced.
#[derive(Debug, Clone, PartialEq, Eq)]
pub struct BuiltPackage {
    pub atom: String,
    pub binpkg_path: String,
    pub sha256: String,
    pub size: u64,
}

/// A package that failed to build, with the reason.
#[derive(Debug, Clone, PartialEq, Eq)]
pub struct FailedPackage {
    pub atom: String,
    pub reason: String,
    pub build_log: Option<String>,
}

/// Every requested atom, failed for the same reason.
pub fn failed_packages_for_atoms(atoms: &[String], reason: &str) -> (r: Vec<FailedPackage>)
    ensures
        r.len() == atoms.len(),
        forall|i: int|
            0 <= i < r.len() ==> (#[trigger] r@[i]).atom@ == atoms@[i]@ && r@[i].reason@
                == reason@ && r@[i].build_log.is_none(),
{
    let mut out: Vec<FailedPackage> = Vec::new();
    let mut i: usize = 0;
    while i < atoms.len()
        invariant
            i <= atoms.len(),
            out.len() == i,
            forall|j: int|
                0 <= j < i ==> (#[trigger] out@[j]).atom@ == atoms@[j]@ && out@[j].reason@
                    == reason@ && out@[j].build_log.is_none(),
        decreases atoms.len() - i,
    {
        out.push(
            FailedPackage {
                atom: atoms[i].clone(),
                reason: string_of(chars_of(reason).as_slice()),
                build_log: None,
            },
        );
        i += 1;
    }
    out
}

/// The packages that structured events report built, without files: each
/// atom with `<atom>.gpkg.tar`, no digest and size 0.
pub fn packages_from_events(built_atoms: &[String]) -> (r: Vec<BuiltPackage>)
    ensures
        r.len() == built_atoms.len(),
        forall|i: int|
            0 <= i < r.len() ==> (#[trigger] r@[i]).atom@ == built_atoms@[i]@ && r@[i].binpkg_path@
                == built_atoms@[i]@ + ".gpkg.tar"@ && r@[i].sha256@.len() == 0 && r@[i].size == 0,
{
    let mut out: Vec<BuiltPackage> = Vec::new();
    let mut i: usize = 0;
    while i < built_atoms.len()
        invariant
            i <= built_atoms.len(),
            out.len() == i,
            forall|j: int|
                0 <= j < i ==> (#[trigger] out@[j]).atom@ == built_atoms@[j]@ && out@[j].binpkg_path@
                    == built_atoms@[j]@ + ".gpkg.tar"@ && out@[j].sha256@.len() == 0 && out@[j].size
                    == 0,
        decreases built_atoms.len() - i,
    {
        out.push(
            BuiltPackage {
                atom: built_atoms[i].clone(),
                binpkg_path: prefixed(built_atoms[i].as_str(), ".gpkg.tar"),
                sha256: String::new(),
                size: 0,
            },
        );
        i += 1;
    }
    out
}

/// An atom without its leading version operators (`>=`, `<`, `~`, `!`, ...).
pub open spec fn strip_operators(a: Seq<char>) -> Seq<char>
    decreases a.len(),
{
    if a.len() > 0 && (a[0] == '>' || a[0] == '=' || a[0] == '<' || a[0] == '~' || a[0] == '!') {
        strip_operators(a.drop_first())
    } else {
        a
    }
}

fn strip_operators_exec(a: &str) -> (r: String)
    ensures
        r@ == strip_operators(a@),
{
    let s = chars_of(a);
    let mut i: usize = 0;
    assert(s@.skip(0) =~= s@);
    while i < s.len() && (s[i] == '>' || s[i] == '=' || s[i] == '<' || s[i] == '~' || s[i] == '!')
        invariant
            i <= s.len(),
            strip_operators(s@.skip(i as int)) == strip_operators(a@),
            s@ == a@,
        decreases s.len() - i,
    {
        assert(s@.skip(i as int).drop_first() =~= s@.skip(i + 1));
        i += 1;
    }
    string_of(sub_chars(s.as_slice(), i, s.len()).as_slice())
}

/// Whether a scanned package belongs to the build: its base is the base of
/// a requested atom (operators stripped) or of an atom that events report
/// built.
pub open spec fn belongs_to_build(cpv: Seq<char>, requested: Seq<Seq<char>>, built: Seq<Seq<char>>) -> bool {
    (exists|i: int|
        0 <= i < requested.len() && package_base(strip_operators(#[trigger] requested[i]))
            == package_base(cpv)) || (exists|i: int|
        0 <= i < built.len() && package_base(#[trigger] built[i]) == package_base(cpv))
}

fn belongs_to_build_exec(cpv: &str, requested: &[String], built: &[String]) -> (r: bool)
    ensures
        r == belongs_to_build(cpv@, crate::text::sv(requested@), crate::text::sv(built@)),
{
    let base = chars_of(crate::repo::extract_package_base(cpv).as_str());
    let mut i: usize = 0;
    while i < requested.len()
        invariant
            i <= requested.len(),
            base@ == package_base(cpv@),
            forall|j: int|
                0 <= j < i ==> package_base(strip_operators(#[trigger] crate::text::sv(requested@)[j]))
                    != package_base(cpv@),
        decreases requested.len() - i,
    {
        let stripped = strip_operators_exec(requested[i].as_str());
        let b = chars_of(crate::repo::extract_package_base(stripped.as_str()).as_str());
        assert(crate::text::sv(requested@)[i as int] == requested@[i as int]@);
        if crate::text::eq_chars(b.as_slice(), base.as_slice()) {
            return true;
        }
        i += 1;
    }
    let mut k: usize = 0;
    while k < built.len()
        invariant
            k <= built.len(),
            base@ == package_base(cpv@),
            forall|j: int|
                0 <= j < requested.len() ==> package_base(strip_operators(
                    #[trigger] crate::text::sv(requested@)[j],
                )) != package_base(cpv@),
            forall|j: int|
                0 <= j < k ==> package_base(#[trigger] crate::text::sv(built@)[j]) != package_base(
                    cpv@,
                ),
        decreases built.len() - k,
    {
        let b = chars_of(crate::repo::extract_package_base(built[k].as_str()).as_str());
        assert(crate::text::sv(built@)[k as int] == built@[k as int]@);
        if crate::text::eq_chars(b.as_slice(), base.as_slice()) {
            return true;
        }
        k += 1;
    }
    false
}

/// The scanned packages that belong to the build, as built packages.
pub open spec fn matching_packages(
    scanned: Seq<PackageMeta>,
    requested: Seq<Seq<char>>,
    built: Seq<Seq<char>>,
) -> Seq<PackageMeta>
    decreases scanned.len(),
{
    if scanned.len() == 0 {
        Seq::empty()
    } else {
        let rest = matching_packages(scanned.drop_last(), requested, built);
        if belongs_to_build(scanned.last().cpv@, requested, built) {
            rest.push(scanned.last())
        } else {
            rest
        }
    }
}

/// A scanned package reported as built.
pub open spec fn reported(m: PackageMeta, b: BuiltPackage) -> bool {
    b.atom == m.cpv && b.binpkg_path == m.relative_path && b.sha256 == m.sha256 && b.size == m.size
}

/// The built packages that a successful build reports: the scanned
/// packages that belong to the build, or, when the scan failed or matched
/// nothing, the packages that events report built.
pub fn completed_built_packages(
    scanned: Option<&[PackageMeta]>,
    requested: &[String],
    built_atoms: &[String],
) -> (r: Vec<BuiltPackage>)
    ensures
        match scanned {
            Some(s) => {
                let m = matching_packages(s@, crate::text::sv(requested@), crate::text::sv(built_atoms@));
                if m.len() > 0 {
                    r.len() == m.len() && forall|i: int| 0 <= i < r.len() ==> reported(m[i], #[trigger] r@[i])
                } else {
                    r.len() == built_atoms.len() && forall|i: int|
                        0 <= i < r.len() ==> (#[trigger] r@[i]).atom@ == built_atoms@[i]@
                            && r@[i].binpkg_path@ == built_atoms@[i]@ + ".gpkg.tar"@
                            && r@[i].sha256@.len() == 0 && r@[i].size == 0
                }
            },
            None => r.len() == built_atoms.len() && forall|i: int|
                0 <= i < r.len() ==> (#[trigger] r@[i]).atom@ == built_atoms@[i]@
                    && r@[i].binpkg_path@ == built_atoms@[i]@ + ".gpkg.tar"@ && r@[i].sha256@.len()
                    == 0 && r@[i].size == 0,
        },
{
    match scanned {
        None => packages_from_events(built_atoms),
        Some(s) => {
            let ghost req = crate::text::sv(requested@);
            let ghost blt = crate::text::sv(built_atoms@);
            let mut out: Vec<BuiltPackage> = Vec::new();
            let ghost mut m: Seq<PackageMeta> = Seq::empty();
            let mut i: usize = 0;
            while i < s.len()
                invariant
                    i <= s.len(),
                    req == crate::text::sv(requested@),
                    blt == crate::text::sv(built_atoms@),
                    m == matching_packages(s@.take(i as int), req, blt),
                    out.len() == m.len(),
                    forall|k: int| 0 <= k < out.len() ==> reported(m[k], #[trigger] out@[k]),
                decreases s.len() - i,
            {
                let meta = &s[i];
                assert(s@.take(i + 1).drop_last() =~= s@.take(i as int));
                if belongs_to_build_exec(meta.cpv.as_str(), requested, built_atoms) {
                    out.push(
                        BuiltPackage {
                            atom: meta.cpv.clone(),
                            binpkg_path: meta.relative_path.clone(),
                            sha256: meta.sha256.clone(),
                            size: meta.size,
                        },
                    );
                    proof {
                        m = m.push(*meta);
                    }
                }
                i += 1;
            }
            assert(s@.take(s.len() as int) =~= s@);
            if out.len() == 0 {
                packages_from_events(built_atoms)
            } else {
                out
            }
        },
    }
}

/// The failed packages that a failed build reports: the structured failures
/// when there are any, else every requested atom with the failure reason.
pub fn failure_packages(failed: Vec<FailedPackage>, requested: &[String], reason: &str) -> (r: Vec<
    FailedPackage,
>)
    ensures
        failed.len() > 0 ==> r == failed,
        failed.len() == 0 ==> r.len() == requested.len() && forall|i: int|
            0 <= i < r.len() ==> (#[trigger] r@[i]).atom@ == requested@[i]@ && r@[i].reason@
                == reason@ && r@[i].build_log.is_none(),
{
    if failed.len() == 0 {
        failed_packages_for_atoms(requested, reason)
    } else {
        failed
    }
}

/// A signed number in decimal, as `i64` displays it.
pub open spec fn signed_decimal(n: i64) -> Seq<char> {
    if n < 0 {
        "-"@ + crate::text::decimal((-n) as nat)
    } else {
        crate::text::decimal(n as nat)
    }
}

fn i64_to_decimal(n: i64) -> (r: Vec<char>)
    ensures
        r@ == signed_decimal(n),
{
    if n < 0 {
        let magnitude: u64 = if n == i64::MIN {
            9223372036854775808u64
        } else {
            (-n) as u64
        };
        let mut out: Vec<char> = Vec::new();
        out.push('-');
        crate::text::append_chars(&mut out, crate::text::u64_to_decimal(magnitude).as_slice());
        proof {
            reveal_strlit("-");
        }
        assert(out@ =~= "-"@ + crate::text::decimal((-n) as nat));
        out
    } else {
        crate::text::u64_to_decimal(n as u64)
    }
}

/// Why a build failed when the worker container exited with a non-zero
/// code.
pub fn exit_failure_reason(exit_code: i64) -> (r: String)
    ensures
        r@ == "Worker exited with code "@ + signed_decimal(exit_code),
{
    let mut out = chars_of("Worker exited with code ");
    crate::text::append_chars(&mut out, i64_to_decimal(exit_code).as_slice());
    string_of(out.as_slice())
}

/// A workorder as the queue sees it when it picks the next one.
#[derive(Debug, Clone, Copy, PartialEq, Eq)]
pub struct QueueEntry {
    pub pending: bool,
    /// Creation time, in milliseconds since the Unix epoch.
    pub created_at_millis: i64,
}

/// The workorder that runs next: the oldest pending one (the first of
/// equally old ones), or none when nothing is pending.
pub fn next_pending(entries: &[QueueEntry]) -> (r: Option<usize>)
    ensures
        r is None <==> forall|j: int| 0 <= j < entries.len() ==> !(#[trigger] entries@[j]).pending,
        r matches Some(i) ==> i < entries.len() && entries@[i as int].pending && forall|j: int|
            0 <= j < entries.len() && (#[trigger] entries@[j]).pending ==> entries@[i as int].created_at_millis
                <= entries@[j].created_at_millis && (entries@[j].created_at_millis
                == entries@[i as int].created_at_millis ==> i <= j),
{
    let mut best: Option<usize> = None;
    let mut k: usize = 0;
    while k < entries.len()
        invariant
            k <= entries.len(),
            best is None <==> forall|j: int| 0 <= j < k ==> !(#[trigger] entries@[j]).pending,
            best matches Some(i) ==> i < k && entries@[i as int].pending && forall|j: int|
                0 <= j < k && (#[trigger] entries@[j]).pending ==> entries@[i as int].created_at_millis
                    <= entries@[j].created_at_millis && (entries@[j].created_at_millis
                    == entries@[i as int].created_at_millis ==> i <= j),
        decreases entries.len() - k,
    {
        let e = entries[k];
        if e.pending {
            match best {
                None => {
                    best = Some(k);
                },
                Some(b) => {
                    if e.created_at_millis < entries[b].created_at_millis {
                        best = Some(k);
                    }
                },
            }
        }
        k += 1;
    }
    best
}

/// How waiting for a worker container ended.
#[derive(Debug, Clone, PartialEq, Eq)]
pub enum WaitOutcome {
    /// The container exited with this code.
    Exited(i64),
    /// The build ran past the configured timeout (in seconds).
    TimedOut(u64),
    /// Waiting failed, with the error's text.
    WaitFailed(String),
}

/// Why a build failed, or `None` when the worker exited with 0.
pub open spec fn build_failure(o: WaitOutcome) -> Option<Seq<char>> {
    match o {
        WaitOutcome::Exited(c) => if c == 0 {
            None
        } else {
            Some("Worker exited with code "@ + signed_decimal(c))
        },
        WaitOutcome::TimedOut(secs) => Some(
            "Build exceeded configured timeout of "@ + crate::text::decimal(secs as nat)
                + " seconds"@,
        ),
        WaitOutcome::WaitFailed(e) => Some("Failed to wait for worker container: "@ + e@),
    }
}

/// The failure reason of a build, from how its container ended.
pub fn build_failure_reason(o: &WaitOutcome) -> (r: Option<String>)
    ensures
        match build_failure(*o) {
            Some(t) => r matches Some(s) && s@ == t,
            None => r is None,
        },
{
    match o {
        WaitOutcome::Exited(c) => {
            if *c == 0 {
                None
            } else {
                Some(exit_failure_reason(*c))
            }
        },
        WaitOutcome::TimedOut(secs) => {
            let mut out = chars_of("Build exceeded configured timeout of ");
            crate::text::append_chars(&mut out, crate::text::u64_to_decimal(*secs).as_slice());
            crate::text::append_chars(&mut out, chars_of(" seconds").as_slice());
            Some(string_of(out.as_slice()))
        },
        WaitOutcome::WaitFailed(e) => Some(prefixed("Failed to wait for worker container: ", e.as_str())),
    }
}

/// A structured event of the worker, as the queue collects them.
#[derive(Debug, Clone, PartialEq, Eq)]
pub enum WorkerEvent {
    /// A package was built in this many seconds.
    PackageBuilt { atom: String, duration_secs: u64 },
    /// A package failed.
    PackageFailed { atom: String, reason: String },
    /// A log record, already relayed as it came.
    Log,
}

/// The atoms the events report built, in order.
pub open spec fn built_from_events(es: Seq<WorkerEvent>) -> Seq<Seq<char>>
    decreases es.len(),
{
    if es.len() == 0 {
        Seq::empty()
    } else {
        match es.last() {
            WorkerEvent::PackageBuilt { atom, .. } => built_from_events(es.drop_last()).push(atom@),
            _ => built_from_events(es.drop_last()),
        }
    }
}

/// The failures the events report, in order.
pub open spec fn failed_from_events(es: Seq<WorkerEvent>) -> Seq<(Seq<char>, Seq<char>)>
    decreases es.len(),
{
    if es.len() == 0 {
        Seq::empty()
    } else {
        match es.last() {
            WorkerEvent::PackageFailed { atom, reason } => failed_from_events(es.drop_last()).push(
                (atom@, reason@),
            ),
            _ => failed_from_events(es.drop_last()),
        }
    }
}

/// Collects the drained worker events: the atoms built, and the failed
/// packages (without build log); log records are left out.
pub fn collect_worker_events(events: &[WorkerEvent]) -> (r: (Vec<String>, Vec<FailedPackage>))
    ensures
        crate::text::sv(r.0@) == built_from_events(events@),
        r.1.len() == failed_from_events(events@).len(),
        forall|i: int|
            0 <= i < r.1.len() ==> ((#[trigger] r.1@[i]).atom@, r.1@[i].reason@) == failed_from_events(
                events@,
            )[i] && r.1@[i].build_log is None,
{
    let mut built: Vec<String> = Vec::new();
    let mut failed: Vec<FailedPackage> = Vec::new();
    let mut i: usize = 0;
    while i < events.len()
        invariant
            i <= events.len(),
            crate::text::sv(built@) == built_from_events(events@.take(i as int)),
            failed.len() == failed_from_events(events@.take(i as int)).len(),
            forall|k: int|
                0 <= k < failed.len() ==> ((#[trigger] failed@[k]).atom@, failed@[k].reason@)
                    == failed_from_events(events@.take(i as int))[k] && failed@[k].build_log is None,
        decreases events.len() - i,
    {
        assert(events@.take(i + 1).drop_last() =~= events@.take(i as int));
        assert(events@.take(i + 1).last() == events@[i as int]);
        match &events[i] {
            WorkerEvent::PackageBuilt { atom, .. } => {
                let ghost before = built@;
                built.push(atom.clone());
                assert(crate::text::sv(built@) =~= crate::text::sv(before).push(atom@));
            },
            WorkerEvent::PackageFailed { atom, reason } => {
                failed.push(FailedPackage { atom: atom.clone(), reason: reason.clone(), build_log: None });
            },
            WorkerEvent::Log => {},
        }
        i += 1;
    }
    assert(events@.take(events.len() as int) =~= events@);
    (built, failed)
}

} // verus!

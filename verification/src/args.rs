//! Decisions of the `remerge` command line: which arguments are package
//! atoms, which emerge arguments a workorder carries, how the local emerge
//! is invoked, and which paths a restore may touch.
use vstd::prelude::*;

use crate::paths::{components, has_special_component, is_absolute, join_segments, normal_segments, normalized};
use crate::text::{chars_of, concat_chars, join, split_chars, split_on, string_of, trim, trim_chars, vv, sv};
use crate::verbosity::Verbosity;

verus! {

/// An argument is an atom (or a set such as `@world`) unless it starts with
/// `-`.
pub open spec fn is_atom_arg(a: Seq<char>) -> bool {
    !(a.len() > 0 && a[0] == '-')
}

/// The arguments that are not options, in order.
pub open spec fn atoms_of(args: Seq<Seq<char>>) -> Seq<Seq<char>>
    decreases args.len(),
{
    if args.len() == 0 {
        Seq::empty()
    } else if is_atom_arg(args.last()) {
        atoms_of(args.drop_last()).push(args.last())
    } else {
        atoms_of(args.drop_last())
    }
}

/// Extract package atoms from emerge arguments: anything that does not
/// start with `-` (qualified, unqualified, versioned atoms and sets).
pub fn extract_package_atoms(args: &[String]) -> (r: Vec<String>)
    ensures
        sv(r@) == atoms_of(sv(args@)),
{
    let mut out: Vec<String> = Vec::new();
    let mut i: usize = 0;
    while i < args.len()
        invariant
            i <= args.len(),
            sv(out@) == atoms_of(sv(args@).take(i as int)),
        decreases args.len() - i,
    {
        let a = &args[i];
        let c = chars_of(a.as_str());
        assert(sv(args@).take(i + 1).drop_last() =~= sv(args@).take(i as int));
        assert(sv(args@).take(i + 1).last() == a@);
        if !(c.len() > 0 && c[0] == '-') {
            out.push(a.clone());
            assert(sv(out@) =~= atoms_of(sv(args@).take(i as int)).push(a@));
        }
        i += 1;
    }
    assert(sv(args@).take(args.len() as int) =~= sv(args@));
    out
}

/// The arguments of the local emerge that installs the built packages:
/// `--getbinpkg --usepkg` before the operator's own arguments.
pub fn build_local_emerge_args(emerge_args: &[String]) -> (r: Vec<String>)
    ensures
        sv(r@) == seq!["--getbinpkg"@, "--usepkg"@] + sv(emerge_args@),
{
    let mut out: Vec<String> = Vec::new();
    out.push(string_of(chars_of("--getbinpkg").as_slice()));
    out.push(string_of(chars_of("--usepkg").as_slice()));
    let mut i: usize = 0;
    while i < emerge_args.len()
        invariant
            i <= emerge_args.len(),
            sv(out@) == seq!["--getbinpkg"@, "--usepkg"@] + sv(emerge_args@).take(i as int),
        decreases emerge_args.len() - i,
    {
        let ghost before = out@;
        let a = emerge_args[i].clone();
        out.push(a);
        assert(out@ == before.push(a));
        assert(sv(emerge_args@)[i as int] == a@);
        assert(sv(out@) =~= sv(before).push(a@));
        assert(sv(emerge_args@).take(i + 1) =~= sv(emerge_args@).take(i as int).push(a@));
        assert(sv(out@) =~= seq!["--getbinpkg"@, "--usepkg"@] + sv(emerge_args@).take(i + 1));
        i += 1;
    }
    assert(sv(emerge_args@).take(emerge_args.len() as int) =~= sv(emerge_args@));
    out
}

/// The emerge flag that a verbosity level injects, if any.
pub open spec fn emerge_flag_of(v: Verbosity) -> Option<Seq<char>> {
    match v {
        Verbosity::Quiet => Some("--quiet"@),
        Verbosity::Normal => None,
        _ => Some("--verbose"@),
    }
}

/// A verbosity flag of emerge.
pub open spec fn is_verbosity_flag(a: Seq<char>) -> bool {
    a == "-q"@ || a == "--quiet"@ || a == "-v"@ || a == "--verbose"@
}

pub open spec fn has_verbosity_flag(args: Seq<Seq<char>>) -> bool {
    exists|i: int| 0 <= i < args.len() && is_verbosity_flag(#[trigger] args[i])
}

/// The emerge arguments a workorder carries: the operator's arguments, with
/// the level's flag put first when the level has one and the operator gave
/// no verbosity flag of their own.
pub open spec fn workorder_args(args: Seq<Seq<char>>, v: Verbosity) -> Seq<Seq<char>> {
    match emerge_flag_of(v) {
        Some(f) => if has_verbosity_flag(args) {
            args
        } else {
            seq![f] + args
        },
        None => args,
    }
}

/// Number of verbosity flags among the arguments.
pub open spec fn count_verbosity_flags(args: Seq<Seq<char>>) -> nat
    decreases args.len(),
{
    if args.len() == 0 {
        0
    } else {
        count_verbosity_flags(args.drop_last()) + (if is_verbosity_flag(args.last()) {
            1nat
        } else {
            0nat
        })
    }
}

fn is_verbosity_flag_exec(a: &str) -> (r: bool)
    ensures
        r == is_verbosity_flag(a@),
{
    let c = chars_of(a);
    crate::text::eq_chars(c.as_slice(), chars_of("-q").as_slice())
        || crate::text::eq_chars(c.as_slice(), chars_of("--quiet").as_slice())
        || crate::text::eq_chars(c.as_slice(), chars_of("-v").as_slice())
        || crate::text::eq_chars(c.as_slice(), chars_of("--verbose").as_slice())
}

/// Build the emerge arguments to submit in a workorder, injecting the
/// verbosity flag of `verbosity` unless the operator already gave one.
pub fn workorder_emerge_args(emerge_args: &[String], verbosity: Verbosity) -> (r: Vec<String>)
    ensures
        sv(r@) == workorder_args(sv(emerge_args@), verbosity),
{
    let mut present = false;
    let mut i: usize = 0;
    while i < emerge_args.len()
        invariant
            i <= emerge_args.len(),
            present == exists|j: int| 0 <= j < i && is_verbosity_flag(#[trigger] sv(emerge_args@)[j]),
        decreases emerge_args.len() - i,
    {
        assert(sv(emerge_args@)[i as int] == emerge_args@[i as int]@);
        if is_verbosity_flag_exec(emerge_args[i].as_str()) {
            present = true;
        }
        i += 1;
    }
    let mut out: Vec<String> = Vec::new();
    match verbosity.emerge_flag() {
        Some(flag) => {
            if !present {
                out.push(string_of(chars_of(flag).as_slice()));
            }
        },
        None => {},
    }
    let ghost start = sv(out@);
    let mut k: usize = 0;
    while k < emerge_args.len()
        invariant
            k <= emerge_args.len(),
            sv(out@) == start + sv(emerge_args@).take(k as int),
        decreases emerge_args.len() - k,
    {
        let ghost before = out@;
        let a = emerge_args[k].clone();
        out.push(a);
        assert(out@ == before.push(a));
        assert(sv(emerge_args@)[k as int] == a@);
        assert(sv(out@) =~= sv(before).push(a@));
        assert(sv(emerge_args@).take(k + 1) =~= sv(emerge_args@).take(k as int).push(a@));
        assert(sv(out@) =~= start + sv(emerge_args@).take(k + 1));
        k += 1;
    }
    assert(sv(emerge_args@).take(emerge_args.len() as int) =~= sv(emerge_args@));
    assert(sv(out@) =~= workorder_args(sv(emerge_args@), verbosity));
    out
}

proof fn lemma_count_zero(args: Seq<Seq<char>>)
    requires
        !has_verbosity_flag(args),
    ensures
        count_verbosity_flags(args) == 0,
    decreases args.len(),
{
    if args.len() > 0 {
        assert(!is_verbosity_flag(args[args.len() - 1]));
        assert forall|i: int| 0 <= i < args.drop_last().len() implies !is_verbosity_flag(
            #[trigger] args.drop_last()[i],
        ) by {
            assert(args.drop_last()[i] == args[i]);
        }
        lemma_count_zero(args.drop_last());
    }
}

proof fn lemma_count_prepend(f: Seq<char>, args: Seq<Seq<char>>)
    ensures
        count_verbosity_flags(seq![f] + args) == count_verbosity_flags(args) + (if is_verbosity_flag(
            f,
        ) {
            1nat
        } else {
            0nat
        }),
    decreases args.len(),
{
    if args.len() == 0 {
        assert(seq![f] + args =~= seq![f]);
        assert(seq![f].drop_last() =~= Seq::<Seq<char>>::empty());
        assert(seq![f].last() == f);
        assert(count_verbosity_flags(Seq::<Seq<char>>::empty()) == 0);
    } else {
        assert((seq![f] + args).drop_last() =~= seq![f] + args.drop_last());
        assert((seq![f] + args).last() == args.last());
        lemma_count_prepend(f, args.drop_last());
    }
}

/// A verbosity flag of the operator's own (`-q`, `--quiet`, `-v` or
/// `--verbose`) leaves the workorder's arguments exactly as given; without
/// one, quiet puts `--quiet` first, the verbose levels put `--verbose`
/// first, and the normal level adds nothing.
pub proof fn law_operator_verbosity_flag_is_kept(args: Seq<Seq<char>>, v: Verbosity)
    ensures
        (exists|i: int|
            0 <= i < args.len() && (#[trigger] args[i] == "-q"@ || args[i] == "--quiet"@ || args[i]
                == "-v"@ || args[i] == "--verbose"@)) ==> workorder_args(args, v) == args,
        (forall|i: int|
            0 <= i < args.len() ==> #[trigger] args[i] != "-q"@ && args[i] != "--quiet"@ && args[i]
                != "-v"@ && args[i] != "--verbose"@) ==> workorder_args(args, v) == match v {
            Verbosity::Quiet => seq!["--quiet"@] + args,
            Verbosity::Normal => args,
            _ => seq!["--verbose"@] + args,
        },
{
    if exists|i: int|
        0 <= i < args.len() && (#[trigger] args[i] == "-q"@ || args[i] == "--quiet"@ || args[i]
            == "-v"@ || args[i] == "--verbose"@) {
        let i = choose|i: int|
            0 <= i < args.len() && (#[trigger] args[i] == "-q"@ || args[i] == "--quiet"@ || args[i]
                == "-v"@ || args[i] == "--verbose"@);
        assert(is_verbosity_flag(args[i]));
        assert(has_verbosity_flag(args));
    }
    if forall|i: int|
        0 <= i < args.len() ==> #[trigger] args[i] != "-q"@ && args[i] != "--quiet"@ && args[i]
            != "-v"@ && args[i] != "--verbose"@ {
        assert(!has_verbosity_flag(args));
    }
}

/// A workorder never carries more than one verbosity flag beyond those the
/// operator typed, and exactly one when the operator typed none and the
/// level is not normal.
pub proof fn law_workorder_args_add_at_most_one_flag(args: Seq<Seq<char>>, v: Verbosity)
    ensures
        count_verbosity_flags(workorder_args(args, v)) <= count_verbosity_flags(args) + 1,
        !has_verbosity_flag(args) ==> count_verbosity_flags(workorder_args(args, v)) == (if v
            == Verbosity::Normal {
            0nat
        } else {
            1nat
        }),
        has_verbosity_flag(args) ==> workorder_args(args, v) == args,
{
    match emerge_flag_of(v) {
        Some(f) => {
            if !has_verbosity_flag(args) {
                lemma_count_prepend(f, args);
                lemma_count_zero(args);
            }
        },
        None => {
            if !has_verbosity_flag(args) {
                lemma_count_zero(args);
            }
        },
    }
}

/// The binhost URI handed to the local emerge: the configured one,
/// trimmed, unless it is blank.
pub fn portage_binhost_env(binhost_uri: Option<&str>) -> (r: Option<String>)
    ensures
        match binhost_uri {
            None => r.is_none(),
            Some(u) => if trim(u@).len() == 0 {
                r.is_none()
            } else {
                r matches Some(s) && s@ == trim(u@)
            },
        },
{
    match binhost_uri {
        None => None,
        Some(u) => {
            let t = trim_chars(chars_of(u).as_slice());
            if t.len() == 0 {
                None
            } else {
                Some(string_of(t.as_slice()))
            }
        },
    }
}

/// The `file://` binhost URI of a local package directory; only an
/// absolute directory has one.
pub fn file_binhost_uri(pkgdir: &str) -> (r: Option<String>)
    ensures
        is_absolute(pkgdir@) ==> (r matches Some(s) && s@ == "file://"@ + pkgdir@),
        !is_absolute(pkgdir@) ==> r.is_none(),
{
    let p = chars_of(pkgdir);
    if !(p.len() > 0 && p[0] == '/') {
        return None;
    }
    let r = concat_chars(chars_of("file://").as_slice(), p.as_slice());
    Some(string_of(r.as_slice()))
}

/// Why a path from the server was refused.
#[derive(Debug, Clone, PartialEq, Eq)]
pub enum PathError {
    /// The path is absolute.
    Absolute,
    /// The path has a `.` or `..` component.
    Traversal,
    /// The path names nothing.
    Empty,
    /// The path lies outside the set that a parity restore may touch.
    NotApproved { path: String },
}

/// The text the client reports for a refused path.
pub open spec fn path_error_text(e: PathError) -> Seq<char> {
    match e {
        PathError::Absolute => "absolute paths are not allowed"@,
        PathError::Traversal => "path traversal is not allowed"@,
        PathError::Empty => "empty paths are not allowed"@,
        PathError::NotApproved { path } => "Parity path is outside the approved include set: "@
            + path@,
    }
}

impl PathError {
    /// The error's text.
    pub fn message(&self) -> (r: String)
        ensures
            r@ == path_error_text(*self),
    {
        match self {
            PathError::Absolute => "absolute paths are not allowed".to_string(),
            PathError::Traversal => "path traversal is not allowed".to_string(),
            PathError::Empty => "empty paths are not allowed".to_string(),
            PathError::NotApproved { path } => {
                let r = concat_chars(
                    chars_of("Parity path is outside the approved include set: ").as_slice(),
                    chars_of(path.as_str()).as_slice(),
                );
                string_of(r.as_slice())
            },
        }
    }
}

/// The refusal of a run without emerge arguments.
pub open spec fn missing_emerge_args_text() -> Seq<char> {
    "No emerge arguments provided.  Usage: remerge [OPTIONS] <emerge-args>..."@
}

/// A run needs emerge arguments; without any it is refused with the usage
/// text.
pub fn check_emerge_args(emerge_args: &[String]) -> (r: Result<(), String>)
    ensures
        emerge_args.len() > 0 <==> r is Ok,
        r matches Err(m) ==> m@ == missing_emerge_args_text(),
{
    if emerge_args.len() == 0 {
        return Err(
            "No emerge arguments provided.  Usage: remerge [OPTIONS] <emerge-args>...".to_string(),
        );
    }
    Ok(())
}

/// What [`sanitize_binpkg_path`] makes of a path.
pub open spec fn sanitized_binpkg(p: Seq<char>) -> Result<Seq<char>, PathError> {
    if is_absolute(p) {
        Err(PathError::Absolute)
    } else if has_special_component(p) {
        Err(PathError::Traversal)
    } else if normal_segments(split_on(p, '/')).len() == 0 {
        Err(PathError::Empty)
    } else {
        Ok(normalized(p))
    }
}

/// A relative path from the server, reduced to its normal components:
/// absolute paths, `.` and `..` components and empty paths are refused.
pub fn sanitize_binpkg_path(path: &str) -> (r: Result<String, PathError>)
    ensures
        match sanitized_binpkg(path@) {
            Ok(p) => r matches Ok(s) && s@ == p,
            Err(e) => r == Err::<String, PathError>(e),
        },
{
    let p = chars_of(path);
    if p.len() > 0 && p[0] == '/' {
        return Err(PathError::Absolute);
    }
    let c = components(p.as_slice());
    if c.special {
        return Err(PathError::Traversal);
    }
    if c.normal.len() == 0 {
        return Err(PathError::Empty);
    }
    let j = join_segments(&c.normal);
    Ok(string_of(j.as_slice()))
}

/// The names of the components of a path as the parity check reads them:
/// the root, a leading `.` and `..` read as empty names, empty and inner
/// `.` segments are not components.
pub open spec fn component_names(p: Seq<char>) -> Seq<Seq<char>> {
    let segs = split_on(p, '/');
    let prefix: Seq<Seq<char>> = if is_absolute(p) || segs[0] == "."@ {
        seq![Seq::<char>::empty()]
    } else {
        Seq::empty()
    };
    prefix + segment_names(segs)
}

pub open spec fn segment_names(segs: Seq<Seq<char>>) -> Seq<Seq<char>>
    decreases segs.len(),
{
    if segs.len() == 0 {
        Seq::empty()
    } else {
        let rest = segment_names(segs.drop_last());
        let s = segs.last();
        if s.len() == 0 || s == "."@ {
            rest
        } else if s == ".."@ {
            rest.push(Seq::empty())
        } else {
            rest.push(s)
        }
    }
}

/// The component lists that a parity restore may write: the binpkg
/// `Packages` index, the eclass cache, repository `Packages` indexes and
/// metadata, and portage's state directory.
pub open spec fn approved_components(c: Seq<Seq<char>>) -> bool {
    ||| c == seq!["var"@, "cache"@, "binpkgs"@, "Packages"@]
    ||| (c.len() >= 3 && c.take(3) == seq!["var"@, "cache"@, "eclass"@])
    ||| (c.len() == 5 && c.take(3) == seq!["var"@, "db"@, "repos"@] && c[4] == "Packages"@)
    ||| (c.len() >= 5 && c.take(3) == seq!["var"@, "db"@, "repos"@] && c[4] == "metadata"@)
    ||| (c.len() >= 3 && c.take(3) == seq!["var"@, "lib"@, "portage"@])
}

fn names_of(path: &[char]) -> (r: Vec<Vec<char>>)
    ensures
        vv(r@) == component_names(path@),
{
    let segs = split_chars(path, '/');
    proof {
        crate::text::lemma_split_on_nonempty(path@, '/');
    }
    let ghost sg = vv(segs@);
    let dot = chars_of(".");
    let dotdot = chars_of("..");
    let mut out: Vec<Vec<char>> = Vec::new();
    if (path.len() > 0 && path[0] == '/') || crate::text::eq_chars(segs[0].as_slice(), dot.as_slice()) {
        out.push(Vec::new());
    }
    let ghost prefix = vv(out@);
    let mut i: usize = 0;
    while i < segs.len()
        invariant
            i <= segs.len(),
            sg == vv(segs@),
            sg == split_on(path@, '/'),
            dot@ == "."@,
            dotdot@ == ".."@,
            vv(out@) == prefix + segment_names(sg.take(i as int)),
        decreases segs.len() - i,
    {
        let s = &segs[i];
        assert(sg[i as int] == s@);
        assert(sg.take(i + 1).drop_last() =~= sg.take(i as int));
        if s.len() == 0 || crate::text::eq_chars(s.as_slice(), dot.as_slice()) {
        } else if crate::text::eq_chars(s.as_slice(), dotdot.as_slice()) {
            let ghost before = out@;
            let e: Vec<char> = Vec::new();
            out.push(e);
            assert(vv(out@) =~= vv(before).push(Seq::<char>::empty()));
            assert(vv(out@) =~= prefix + segment_names(sg.take(i + 1)));
        } else {
            let ghost before = out@;
            let copy = crate::text::sub_chars(s.as_slice(), 0, s.len());
            assert(copy@ =~= s@);
            out.push(copy);
            assert(vv(out@) =~= vv(before).push(s@));
            assert(vv(out@) =~= prefix + segment_names(sg.take(i + 1)));
        }
        i += 1;
    }
    assert(sg.take(segs.len() as int) =~= sg);
    out
}

fn seg_is(c: &Vec<Vec<char>>, i: usize, lit: &str) -> (r: bool)
    requires
        i < c.len(),
    ensures
        r == (vv(c@)[i as int] == lit@),
{
    crate::text::eq_chars(c[i].as_slice(), chars_of(lit).as_slice())
}

/// Whether a parity restore may write the path.
pub fn is_approved_parity_path(path: &str) -> (r: bool)
    ensures
        r == approved_components(component_names(path@)),
{
    let c = names_of(chars_of(path).as_slice());
    let ghost v = vv(c@);
    let n = c.len();
    if n < 3 {
        return false;
    }
    let var = seg_is(&c, 0, "var");
    let cache = seg_is(&c, 1, "cache");
    let db = seg_is(&c, 1, "db");
    let lib = seg_is(&c, 1, "lib");
    let eclass = seg_is(&c, 2, "eclass");
    let binpkgs = seg_is(&c, 2, "binpkgs");
    let repos = seg_is(&c, 2, "repos");
    let portage = seg_is(&c, 2, "portage");
    let d1 = n == 4 && var && cache && binpkgs && seg_is(&c, 3, "Packages");
    let d2 = var && cache && eclass;
    let d3 = n == 5 && var && db && repos && seg_is(&c, 4, "Packages");
    let d4 = n >= 5 && var && db && repos && seg_is(&c, 4, "metadata");
    let d5 = var && lib && portage;
    proof {
        assert(v.take(3)[0] == v[0] && v.take(3)[1] == v[1] && v.take(3)[2] == v[2]);
        if d1 {
            assert(v =~= seq!["var"@, "cache"@, "binpkgs"@, "Packages"@]);
        }
        if v == seq!["var"@, "cache"@, "binpkgs"@, "Packages"@] {
            assert(d1);
        }
        if d2 {
            assert(v.take(3) =~= seq!["var"@, "cache"@, "eclass"@]);
        }
        if d3 || d4 {
            assert(v.take(3) =~= seq!["var"@, "db"@, "repos"@]);
        }
        if d5 {
            assert(v.take(3) =~= seq!["var"@, "lib"@, "portage"@]);
        }
    }
    d1 || d2 || d3 || d4 || d5
}

/// A root that names the file system root alone (`/`, `//`, `/.`).
pub open spec fn is_root_dir(root: Seq<char>) -> bool {
    is_absolute(root) && forall|i: int|
        0 <= i < split_on(root, '/').len() ==> (#[trigger] split_on(root, '/')[i]).len() == 0
            || split_on(root, '/')[i] == "."@
}

/// Where a sanitized relative path lands under `root`.
pub open spec fn under_root(root: Seq<char>, rel: Seq<char>) -> Seq<char> {
    if is_root_dir(root) {
        "/"@ + rel
    } else {
        crate::blob_store::path_join(root, rel)
    }
}

fn is_root_dir_exec(root: &[char]) -> (r: bool)
    ensures
        r == is_root_dir(root@),
{
    if !(root.len() > 0 && root[0] == '/') {
        return false;
    }
    let segs = split_chars(root, '/');
    let dot = chars_of(".");
    let mut i: usize = 0;
    while i < segs.len()
        invariant
            i <= segs.len(),
            vv(segs@) == split_on(root@, '/'),
            dot@ == "."@,
            forall|j: int|
                0 <= j < i ==> (#[trigger] split_on(root@, '/')[j]).len() == 0 || split_on(
                    root@,
                    '/',
                )[j] == "."@,
        decreases segs.len() - i,
    {
        assert(vv(segs@)[i as int] == segs@[i as int]@);
        if !(segs[i].len() == 0 || crate::text::eq_chars(segs[i].as_slice(), dot.as_slice())) {
            return false;
        }
        i += 1;
    }
    true
}

fn place_under_root(root: &str, rel: &str) -> (r: String)
    ensures
        r@ == under_root(root@, rel@),
{
    if is_root_dir_exec(chars_of(root).as_slice()) {
        let x = concat_chars(chars_of("/").as_slice(), chars_of(rel).as_slice());
        string_of(x.as_slice())
    } else {
        crate::blob_store::join_path(root, rel)
    }
}

/// What [`resolve_relative_target`] makes of a path.
pub open spec fn relative_target(root: Seq<char>, rel: Seq<char>) -> Result<Seq<char>, PathError> {
    match sanitized_binpkg(rel) {
        Ok(s) => Ok(under_root(root, s)),
        Err(e) => Err(e),
    }
}

/// The local path of a file that the server names by a relative path.
pub fn resolve_relative_target(root: &str, relative_path: &str) -> (r: Result<String, PathError>)
    ensures
        match relative_target(root@, relative_path@) {
            Ok(p) => r matches Ok(s) && s@ == p,
            Err(e) => r == Err::<String, PathError>(e),
        },
{
    let sanitized = sanitize_binpkg_path(relative_path)?;
    Ok(place_under_root(root, sanitized.as_str()))
}

/// What [`resolve_parity_target`] makes of a path: a resolved relative
/// target that also lies in the approved set.
pub open spec fn parity_target(root: Seq<char>, rel: Seq<char>) -> Result<Seq<char>, PathError> {
    match sanitized_binpkg(rel) {
        Ok(s) => if approved_components(component_names(s)) {
            Ok(under_root(root, s))
        } else {
            Err(PathError::NotApproved { path: arbitrary() })
        },
        Err(e) => Err(e),
    }
}

/// The local path that a parity restore writes for a relative path;
/// paths outside the approved set are refused.
pub fn resolve_parity_target(root: &str, relative_path: &str) -> (r: Result<String, PathError>)
    ensures
        match sanitized_binpkg(relative_path@) {
            Ok(s) => if approved_components(component_names(s)) {
                r matches Ok(p) && p@ == under_root(root@, s)
            } else {
                r matches Err(PathError::NotApproved { path }) && path@ == relative_path@
            },
            Err(e) => r == Err::<String, PathError>(e),
        },
{
    let sanitized = sanitize_binpkg_path(relative_path)?;
    if !is_approved_parity_path(sanitized.as_str()) {
        return Err(PathError::NotApproved { path: string_of(chars_of(relative_path).as_slice()) });
    }
    Ok(place_under_root(root, sanitized.as_str()))
}

} // verus!

//! Whether an atom is installed, from the entries of the installed
//! package database (`/var/db/pkg/<category>`).
use vstd::prelude::*;

use crate::cflags::first_index;
use crate::text::{chars_of, starts_with, string_of, sub_chars};
use crate::version::{
    parse_atom_operator, parse_atom_operator_spec, split_name_version, split_name_version_spec,
    split_rev, split_revision, version_order, version_order_exec, AtomOp, Order,
};

verus! {

/// A version glob without its trailing `*`s.
pub open spec fn without_stars(s: Seq<char>) -> Seq<char>
    decreases s.len(),
{
    if s.len() > 0 && s.last() == '*' {
        without_stars(s.drop_last())
    } else {
        s
    }
}

/// Whether an installed version satisfies the operator and the version of
/// an atom.
pub open spec fn satisfies(op: AtomOp, installed: Seq<char>, wanted: Seq<char>) -> bool {
    match op {
        AtomOp::Plain => true,
        AtomOp::Eq => installed == wanted,
        AtomOp::EqGlob => starts_with(installed, without_stars(wanted)),
        AtomOp::Tilde => split_rev(installed).0 == split_rev(wanted).0,
        AtomOp::Ge => version_order(installed, wanted) != Order::Less,
        AtomOp::Le => version_order(installed, wanted) != Order::Greater,
        AtomOp::Gt => version_order(installed, wanted) == Order::Greater,
        AtomOp::Lt => version_order(installed, wanted) == Order::Less,
    }
}

/// What an atom asks for: its operator, category, package name and
/// version, if any. Sets (`@world`) and atoms without a category ask for
/// nothing that can be installed. Without an operator the whole name is
/// the package name.
pub open spec fn atom_target(atom: Seq<char>) -> Option<(AtomOp, Seq<char>, Seq<char>, Option<Seq<char>>)> {
    if atom.len() > 0 && atom[0] == '@' {
        None
    } else {
        let (op, stripped) = parse_atom_operator_spec(atom);
        match first_index(stripped, '/') {
            None => None,
            Some(k) => {
                let category = stripped.take(k);
                let rest = stripped.skip(k + 1);
                if op == AtomOp::Plain {
                    Some((op, category, rest, None))
                } else {
                    let (name, version) = split_name_version_spec(rest);
                    Some((op, category, name, version))
                }
            },
        }
    }
}

/// Whether an installed `name-version` entry satisfies what an atom asks.
pub open spec fn entry_satisfies(op: AtomOp, name: Seq<char>, version: Option<Seq<char>>, entry: Seq<char>) -> bool {
    let (iname, iversion) = split_name_version_spec(entry);
    iname == name && match version {
        None => true,
        Some(w) => match iversion {
            None => false,
            Some(v) => satisfies(op, v, w),
        },
    }
}

/// Whether an atom is installed, given the entries of its category in the
/// installed package database.
pub open spec fn installed_in(atom: Seq<char>, entries: Seq<Seq<char>>) -> bool {
    match atom_target(atom) {
        None => false,
        Some((op, category, name, version)) => exists|i: int|
            0 <= i < entries.len() && entry_satisfies(op, name, version, #[trigger] entries[i]),
    }
}

proof fn lemma_first_index(s: Seq<char>, c: char, k: int)
    requires
        0 <= k < s.len(),
        s[k] == c,
        forall|j: int| 0 <= j < k ==> s[j] != c,
    ensures
        first_index(s, c) == Some(k),
{
    let i = choose|i: int| 0 <= i < s.len() && s[i] == c && forall|j: int| 0 <= j < i ==> s[j] != c;
    assert(0 <= i < s.len() && s[i] == c && forall|j: int| 0 <= j < i ==> s[j] != c);
    if i < k {
        assert(s[i] != c);
    } else if i > k {
        assert(s[k] != c);
    }
}

fn without_stars_exec(s: &str) -> (r: String)
    ensures
        r@ == without_stars(s@),
{
    let c = chars_of(s);
    let mut n = c.len();
    assert(c@.take(n as int) =~= c@);
    while n > 0 && c[n - 1] == '*'
        invariant
            n <= c.len(),
            without_stars(c@.take(n as int)) == without_stars(s@),
            c@ == s@,
        decreases n,
    {
        assert(c@.take(n as int).drop_last() =~= c@.take(n - 1));
        n -= 1;
    }
    string_of(sub_chars(c.as_slice(), 0, n).as_slice())
}

fn satisfies_exec(op: AtomOp, installed: &str, wanted: &str) -> (r: bool)
    ensures
        r == satisfies(op, installed@, wanted@),
{
    match op {
        AtomOp::Plain => true,
        AtomOp::Eq => crate::text::eq_chars(chars_of(installed).as_slice(), chars_of(wanted).as_slice()),
        AtomOp::EqGlob => {
            let prefix = without_stars_exec(wanted);
            crate::text::has_prefix(chars_of(installed).as_slice(), chars_of(prefix.as_str()).as_slice())
        },
        AtomOp::Tilde => {
            let (ib, _) = split_revision(installed);
            let (wb, _) = split_revision(wanted);
            crate::text::eq_chars(chars_of(ib).as_slice(), chars_of(wb).as_slice())
        },
        AtomOp::Ge => {
            let o = version_order_exec(installed, wanted);
            !(o == Order::Less)
        },
        AtomOp::Le => {
            let o = version_order_exec(installed, wanted);
            !(o == Order::Greater)
        },
        AtomOp::Gt => version_order_exec(installed, wanted) == Order::Greater,
        AtomOp::Lt => version_order_exec(installed, wanted) == Order::Less,
    }
}

/// The category directory an atom is looked up in, if it asks for an
/// installable package.
pub fn vdb_category(atom: &str) -> (r: Option<String>)
    ensures
        match atom_target(atom@) {
            None => r is None,
            Some((op, category, name, version)) => r matches Some(c) && c@ == category,
        },
{
    let a = chars_of(atom);
    if a.len() > 0 && a[0] == '@' {
        return None;
    }
    let (op, stripped) = parse_atom_operator(atom);
    let s = chars_of(stripped);
    match crate::cflags::find_char(s.as_slice(), '/') {
        None => {
            assert(first_index(stripped@, '/') is None);
            None
        },
        Some(k) => {
            proof {
                lemma_first_index(stripped@, '/', k as int);
            }
            let cat = sub_chars(s.as_slice(), 0, k);
            assert(cat@ =~= stripped@.take(k as int));
            Some(string_of(cat.as_slice()))
        },
    }
}

/// Whether an atom is installed: some entry of its category (as the
/// installed package database lists them, `name-version`) has the atom's
/// package name and a version that satisfies the atom's operator and
/// version; an atom without a version is satisfied by any. Sets are never
/// installed.
pub fn is_installed_in(atom: &str, entries: &[String]) -> (r: bool)
    ensures
        r == installed_in(atom@, crate::text::sv(entries@)),
{
    let a = chars_of(atom);
    if a.len() > 0 && a[0] == '@' {
        return false;
    }
    let (op, stripped) = parse_atom_operator(atom);
    let s = chars_of(stripped);
    let k = match crate::cflags::find_char(s.as_slice(), '/') {
        None => {
            assert(first_index(stripped@, '/') is None);
            return false;
        },
        Some(k) => k,
    };
    proof {
        lemma_first_index(stripped@, '/', k as int);
    }
    let rest_chars = sub_chars(s.as_slice(), k + 1, s.len());
    assert(rest_chars@ =~= stripped@.skip(k + 1));
    let rest = string_of(rest_chars.as_slice());
    let (name, version): (&str, Option<&str>) = if op == AtomOp::Plain {
        (rest.as_str(), None)
    } else {
        split_name_version(rest.as_str())
    };
    let ghost vw: Option<Seq<char>> = match version {
        Some(x) => Some(x@),
        None => None,
    };
    let ghost target = atom_target(atom@);
    assert(target == Some((op, stripped@.take(k as int), name@, vw)));
    let mut i: usize = 0;
    while i < entries.len()
        invariant
            i <= entries.len(),
            vw == (match version {
                Some(x) => Some(x@),
                None => None::<Seq<char>>,
            }),
            atom_target(atom@) == Some((op, stripped@.take(k as int), name@, vw)),
            forall|j: int| 0 <= j < i ==> !entry_satisfies(op, name@, vw, #[trigger] crate::text::sv(entries@)[j]),
        decreases entries.len() - i,
    {
        assert(crate::text::sv(entries@)[i as int] == entries@[i as int]@);
        if entry_ok(op, name, version, entries[i].as_str()) {
            assert(entry_satisfies(op, name@, vw, crate::text::sv(entries@)[i as int]));
            return true;
        }
        i += 1;
    }
    false
}

fn entry_ok(op: AtomOp, name: &str, version: Option<&str>, entry: &str) -> (r: bool)
    ensures
        r == entry_satisfies(
            op,
            name@,
            match version {
                Some(x) => Some(x@),
                None => None,
            },
            entry@,
        ),
{
    let (iname, iversion) = split_name_version(entry);
    if !crate::text::eq_chars(chars_of(iname).as_slice(), chars_of(name).as_slice()) {
        return false;
    }
    match version {
        None => true,
        Some(w) => match iversion {
            None => false,
            Some(v) => satisfies_exec(op, v, w),
        },
    }
}

} // verus!

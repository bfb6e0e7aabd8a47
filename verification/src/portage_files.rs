//! The line formats of the portage configuration files the client sends
//! with a workorder (`package.use`, `package.accept_keywords`,
//! `package.license`, `package.mask`, `package.unmask`, `package.env`), of
//! `repos.conf`, of the world file and of profile `packages` files, and the
//! small rules the client applies to them.
use vstd::prelude::*;

use crate::text::{
    chars_of, eq_ignore_ascii_case, eq_ignore_case, has_suffix, ends_with, lines, lines_of,
    string_of, sv, trim, trim_chars, vv, words, words_of,
};

verus! {

/// A line that carries an entry: not empty and not a comment.
pub open spec fn is_entry_line(t: Seq<char>) -> bool {
    t.len() > 0 && t[0] != '#'
}

/// The entry lines among `ls`, trimmed, in order.
pub open spec fn entry_lines_of(ls: Seq<Seq<char>>) -> Seq<Seq<char>>
    decreases ls.len(),
{
    if ls.len() == 0 {
        Seq::empty()
    } else {
        let rest = entry_lines_of(ls.drop_last());
        let t = trim(ls.last());
        if is_entry_line(t) {
            rest.push(t)
        } else {
            rest
        }
    }
}

/// The entry lines of a file's content.
pub open spec fn entry_lines(content: Seq<char>) -> Seq<Seq<char>> {
    entry_lines_of(lines(content))
}

/// The entry lines of a file, trimmed, without empty lines and comments.
pub fn config_entry_lines(content: &str) -> (r: Vec<Vec<char>>)
    ensures
        vv(r@) == entry_lines(content@),
{
    let ls = lines_of(chars_of(content).as_slice());
    let mut out: Vec<Vec<char>> = Vec::new();
    let mut i: usize = 0;
    while i < ls.len()
        invariant
            i <= ls.len(),
            vv(ls@) == lines(content@),
            vv(out@) == entry_lines_of(vv(ls@).take(i as int)),
        decreases ls.len() - i,
    {
        assert(vv(ls@).take(i + 1).drop_last() =~= vv(ls@).take(i as int));
        let t = trim_chars(ls[i].as_slice());
        if t.len() > 0 && t[0] != '#' {
            out.push(t);
        }
        proof {
            assert(vv(out@) =~= entry_lines_of(vv(ls@).take(i + 1)));
        }
        i = i + 1;
    }
    assert(vv(ls@).take(ls.len() as int) =~= vv(ls@));
    out
}

/// An atom with the values that follow it on its line.
#[derive(Debug, Clone, PartialEq, Eq)]
pub struct AtomValues {
    pub atom: String,
    pub values: Vec<String>,
}

pub open spec fn atom_values_view(e: AtomValues) -> (Seq<char>, Seq<Seq<char>>) {
    (e.atom@, sv(e.values@))
}

/// The entry of a line: its first word with the words after it, or with
/// `defaults` when the atom stands alone and defaults are given; `None`
/// when the line has too few words.
pub open spec fn atom_values_of(l: Seq<char>, defaults: Option<Seq<Seq<char>>>) -> Option<
    (Seq<char>, Seq<Seq<char>>),
> {
    let w = words(l);
    if w.len() >= 2 {
        Some((w[0], w.skip(1)))
    } else if w.len() == 1 && defaults is Some {
        Some((w[0], defaults->Some_0))
    } else {
        None
    }
}

/// The entries of the lines `ls`, with `defaults` for atoms alone.
pub open spec fn atom_value_entries_of(ls: Seq<Seq<char>>, defaults: Option<Seq<Seq<char>>>) -> Seq<
    (Seq<char>, Seq<Seq<char>>),
>
    decreases ls.len(),
{
    if ls.len() == 0 {
        Seq::empty()
    } else {
        let rest = atom_value_entries_of(ls.drop_last(), defaults);
        match atom_values_of(ls.last(), defaults) {
            Some(e) => rest.push(e),
            None => rest,
        }
    }
}

pub open spec fn strings_view(d: Option<&Vec<String>>) -> Option<Seq<Seq<char>>> {
    match d {
        Some(v) => Some(sv(v@)),
        None => None,
    }
}

fn copy_strings(v: &Vec<String>) -> (r: Vec<String>)
    ensures
        sv(r@) == sv(v@),
{
    let mut out: Vec<String> = Vec::new();
    let mut i: usize = 0;
    while i < v.len()
        invariant
            i <= v.len(),
            sv(out@) == sv(v@).take(i as int),
        decreases v.len() - i,
    {
        let ghost before = out@;
        out.push(string_of(chars_of(v[i].as_str()).as_slice()));
        assert(sv(v@)[i as int] == v@[i as int]@);
        assert(sv(out@) =~= sv(before).push(v@[i as int]@));
        assert(sv(out@) =~= sv(v@).take(i + 1));
        i = i + 1;
    }
    assert(sv(v@).take(v.len() as int) =~= sv(v@));
    out
}

fn words_after_first(w: &Vec<Vec<char>>) -> (r: Vec<String>)
    requires
        w.len() >= 1,
    ensures
        sv(r@) == vv(w@).skip(1),
{
    let mut out: Vec<String> = Vec::new();
    let mut i: usize = 1;
    while i < w.len()
        invariant
            1 <= i <= w.len(),
            sv(out@) == vv(w@).subrange(1, i as int),
        decreases w.len() - i,
    {
        let ghost before = out@;
        out.push(string_of(w[i].as_slice()));
        assert(vv(w@)[i as int] == w@[i as int]@);
        assert(sv(out@) =~= sv(before).push(w@[i as int]@));
        assert(sv(out@) =~= vv(w@).subrange(1, i + 1));
        i = i + 1;
    }
    assert(vv(w@).subrange(1, w.len() as int) =~= vv(w@).skip(1));
    out
}

/// The entries of a file whose lines are an atom followed by values.
fn atom_value_entries(content: &str, defaults: Option<&Vec<String>>) -> (r: Vec<AtomValues>)
    ensures
        r@.map_values(|e: AtomValues| atom_values_view(e)) == atom_value_entries_of(
            entry_lines(content@),
            strings_view(defaults),
        ),
{
    let ghost d = strings_view(defaults);
    let ls = config_entry_lines(content);
    let mut out: Vec<AtomValues> = Vec::new();
    let mut i: usize = 0;
    while i < ls.len()
        invariant
            i <= ls.len(),
            vv(ls@) == entry_lines(content@),
            d == strings_view(defaults),
            out@.map_values(|e: AtomValues| atom_values_view(e)) == atom_value_entries_of(
                vv(ls@).take(i as int),
                d,
            ),
        decreases ls.len() - i,
    {
        assert(vv(ls@).take(i + 1).drop_last() =~= vv(ls@).take(i as int));
        assert(vv(ls@).take(i + 1).last() == ls@[i as int]@);
        let w = words_of(ls[i].as_slice());
        let ghost before = out@;
        if w.len() >= 2 {
            let atom = string_of(w[0].as_slice());
            let values = words_after_first(&w);
            out.push(AtomValues { atom, values });
        } else if w.len() == 1 {
            match defaults {
                Some(v) => {
                    let atom = string_of(w[0].as_slice());
                    out.push(AtomValues { atom, values: copy_strings(v) });
                },
                None => {},
            }
        }
        proof {
            if w.len() > 0 {
                assert(vv(w@)[0] == w@[0]@);
            }
            assert(out@.map_values(|e: AtomValues| atom_values_view(e)) =~= atom_value_entries_of(
                vv(ls@).take(i + 1),
                d,
            ));
        }
        i = i + 1;
    }
    assert(vv(ls@).take(ls.len() as int) =~= vv(ls@));
    out
}

/// `package.use` and `package.license`: an atom, then at least one flag
/// or license; lines with an atom alone are skipped.
pub fn parse_atom_with_values(content: &str) -> (r: Vec<AtomValues>)
    ensures
        r@.map_values(|e: AtomValues| atom_values_view(e)) == atom_value_entries_of(
            entry_lines(content@),
            None,
        ),
{
    atom_value_entries(content, None)
}

/// The keywords an atom alone in `package.accept_keywords` gets: every
/// stable keyword of the global `ACCEPT_KEYWORDS` made testing (`~`);
/// keywords already testing or negated are left out.
pub open spec fn default_keywords_of(ws: Seq<Seq<char>>) -> Seq<Seq<char>>
    decreases ws.len(),
{
    if ws.len() == 0 {
        Seq::empty()
    } else {
        let rest = default_keywords_of(ws.drop_last());
        let k = ws.last();
        if k.len() > 0 && k[0] != '~' && k[0] != '-' {
            rest.push(seq!['~'] + k)
        } else {
            rest
        }
    }
}

/// The keywords an atom alone in `package.accept_keywords` gets.
pub fn empty_accept_keywords_defaults(global_accept_keywords: &str) -> (r: Vec<String>)
    ensures
        sv(r@) == default_keywords_of(words(global_accept_keywords@)),
{
    let w = words_of(chars_of(global_accept_keywords).as_slice());
    let mut out: Vec<String> = Vec::new();
    let mut i: usize = 0;
    while i < w.len()
        invariant
            i <= w.len(),
            vv(w@) == words(global_accept_keywords@),
            sv(out@) == default_keywords_of(vv(w@).take(i as int)),
        decreases w.len() - i,
    {
        assert(vv(w@).take(i + 1).drop_last() =~= vv(w@).take(i as int));
        let k = &w[i];
        let ghost before = out@;
        assert(vv(w@).take(i + 1).last() == k@);
        if k.len() > 0 && k[0] != '~' && k[0] != '-' {
            let mut t: Vec<char> = Vec::new();
            t.push('~');
            assert(t@ =~= seq!['~']);
            crate::text::append_chars(&mut t, k.as_slice());
            out.push(string_of(t.as_slice()));
            assert(sv(out@) =~= sv(before).push(seq!['~'] + k@));
        }
        assert(sv(out@) =~= default_keywords_of(vv(w@).take(i + 1)));
        i = i + 1;
    }
    assert(vv(w@).take(w.len() as int) =~= vv(w@));
    out
}

/// `package.accept_keywords`: an atom with its keywords, or an atom alone
/// with the keywords `empty_accept_keywords_defaults` gives.
pub fn parse_package_accept_keywords(content: &str, global_accept_keywords: &str) -> (r: Vec<
    AtomValues,
>)
    ensures
        r@.map_values(|e: AtomValues| atom_values_view(e)) == atom_value_entries_of(
            entry_lines(content@),
            Some(default_keywords_of(words(global_accept_keywords@))),
        ),
{
    let defaults = empty_accept_keywords_defaults(global_accept_keywords);
    atom_value_entries(content, Some(&defaults))
}

/// The atom of a `package.mask` or `package.unmask` line: its first word.
pub open spec fn first_word(l: Seq<char>) -> Option<Seq<char>> {
    if words(l).len() > 0 {
        Some(words(l)[0])
    } else {
        None
    }
}

/// The atoms of the lines `ls`.
pub open spec fn atoms_of_lines(ls: Seq<Seq<char>>) -> Seq<Seq<char>>
    decreases ls.len(),
{
    if ls.len() == 0 {
        Seq::empty()
    } else {
        let rest = atoms_of_lines(ls.drop_last());
        match first_word(ls.last()) {
            Some(a) => rest.push(a),
            None => rest,
        }
    }
}

/// `package.mask` and `package.unmask`: one atom per line.
pub fn parse_package_atoms(content: &str) -> (r: Vec<String>)
    ensures
        sv(r@) == atoms_of_lines(entry_lines(content@)),
{
    let ls = config_entry_lines(content);
    let mut out: Vec<String> = Vec::new();
    let mut i: usize = 0;
    while i < ls.len()
        invariant
            i <= ls.len(),
            vv(ls@) == entry_lines(content@),
            sv(out@) == atoms_of_lines(vv(ls@).take(i as int)),
        decreases ls.len() - i,
    {
        assert(vv(ls@).take(i + 1).drop_last() =~= vv(ls@).take(i as int));
        assert(vv(ls@).take(i + 1).last() == ls@[i as int]@);
        let w = words_of(ls[i].as_slice());
        let ghost before = out@;
        if w.len() > 0 {
            out.push(string_of(w[0].as_slice()));
        }
        proof {
            if w.len() > 0 {
                assert(vv(w@)[0] == w@[0]@);
                assert(sv(out@) =~= sv(before).push(w@[0]@));
            }
            assert(sv(out@) =~= atoms_of_lines(vv(ls@).take(i + 1)));
        }
        i = i + 1;
    }
    assert(vv(ls@).take(ls.len() as int) =~= vv(ls@));
    out
}

/// A `package.env` line: an atom and the env file it uses.
#[derive(Debug, Clone, PartialEq, Eq)]
pub struct PackageEnvEntry {
    pub atom: String,
    pub env_file: String,
}

/// The entry of a `package.env` line: its first two words.
pub open spec fn env_entry_of(l: Seq<char>) -> Option<(Seq<char>, Seq<char>)> {
    let w = words(l);
    if w.len() >= 2 {
        Some((w[0], w[1]))
    } else {
        None
    }
}

/// The `package.env` entries of the lines `ls`.
pub open spec fn env_entries_of(ls: Seq<Seq<char>>) -> Seq<(Seq<char>, Seq<char>)>
    decreases ls.len(),
{
    if ls.len() == 0 {
        Seq::empty()
    } else {
        let rest = env_entries_of(ls.drop_last());
        match env_entry_of(ls.last()) {
            Some(e) => rest.push(e),
            None => rest,
        }
    }
}

/// `package.env`: an atom and an env file per line.
pub fn parse_package_env(content: &str) -> (r: Vec<PackageEnvEntry>)
    ensures
        r@.map_values(|e: PackageEnvEntry| (e.atom@, e.env_file@)) == env_entries_of(
            entry_lines(content@),
        ),
{
    let ls = config_entry_lines(content);
    let mut out: Vec<PackageEnvEntry> = Vec::new();
    let mut i: usize = 0;
    while i < ls.len()
        invariant
            i <= ls.len(),
            vv(ls@) == entry_lines(content@),
            out@.map_values(|e: PackageEnvEntry| (e.atom@, e.env_file@)) == env_entries_of(
                vv(ls@).take(i as int),
            ),
        decreases ls.len() - i,
    {
        assert(vv(ls@).take(i + 1).drop_last() =~= vv(ls@).take(i as int));
        assert(vv(ls@).take(i + 1).last() == ls@[i as int]@);
        let w = words_of(ls[i].as_slice());
        if w.len() >= 2 {
            out.push(
                PackageEnvEntry {
                    atom: string_of(w[0].as_slice()),
                    env_file: string_of(w[1].as_slice()),
                },
            );
        }
        proof {
            assert(w.len() >= 2 ==> vv(w@)[0] == w@[0]@ && vv(w@)[1] == w@[1]@);
            assert(out@.map_values(|e: PackageEnvEntry| (e.atom@, e.env_file@)) =~= env_entries_of(
                vv(ls@).take(i + 1),
            ));
        }
        i = i + 1;
    }
    assert(vv(ls@).take(ls.len() as int) =~= vv(ls@));
    out
}

/// The world file: its entry lines.
pub fn parse_world(content: &str) -> (r: Vec<String>)
    ensures
        sv(r@) == entry_lines(content@),
{
    let ls = config_entry_lines(content);
    crate::text::strings_of(&ls)
}

/// The system packages a profile `packages` line lists: a `*` line names
/// the atom after the star.
pub open spec fn system_atom_of(l: Seq<char>) -> Option<Seq<char>> {
    if l.len() > 0 && l[0] == '*' && trim(l.drop_first()).len() > 0 {
        Some(trim(l.drop_first()))
    } else {
        None
    }
}

/// The system packages of the lines `ls`.
pub open spec fn system_atoms_of(ls: Seq<Seq<char>>) -> Seq<Seq<char>>
    decreases ls.len(),
{
    if ls.len() == 0 {
        Seq::empty()
    } else {
        let rest = system_atoms_of(ls.drop_last());
        match system_atom_of(ls.last()) {
            Some(a) => rest.push(a),
            None => rest,
        }
    }
}

/// The system packages a profile `packages` file lists.
pub fn parse_profile_packages(content: &str) -> (r: Vec<String>)
    ensures
        sv(r@) == system_atoms_of(entry_lines(content@)),
{
    let ls = config_entry_lines(content);
    let mut out: Vec<String> = Vec::new();
    let mut i: usize = 0;
    while i < ls.len()
        invariant
            i <= ls.len(),
            vv(ls@) == entry_lines(content@),
            sv(out@) == system_atoms_of(vv(ls@).take(i as int)),
        decreases ls.len() - i,
    {
        assert(vv(ls@).take(i + 1).drop_last() =~= vv(ls@).take(i as int));
        assert(vv(ls@).take(i + 1).last() == ls@[i as int]@);
        let l = &ls[i];
        let ghost before = out@;
        if l.len() > 0 && l[0] == '*' {
            let rest = crate::text::sub_chars(l.as_slice(), 1, l.len());
            assert(rest@ =~= l@.drop_first());
            let atom = trim_chars(rest.as_slice());
            if atom.len() > 0 {
                out.push(string_of(atom.as_slice()));
                assert(sv(out@) =~= sv(before).push(atom@));
            }
        }
        assert(sv(out@) =~= system_atoms_of(vv(ls@).take(i + 1)));
        i = i + 1;
    }
    assert(vv(ls@).take(ls.len() as int) =~= vv(ls@));
    out
}

/// The package sets the client expands itself.
#[derive(Debug, Clone, Copy, PartialEq, Eq)]
pub enum KnownSet {
    World,
    System,
}

/// Which set a name denotes, if the client expands it.
pub fn known_set(set_name: &str) -> (r: Option<KnownSet>)
    ensures
        r == (if set_name@ == "@world"@ {
            Some(KnownSet::World)
        } else if set_name@ == "@system"@ {
            Some(KnownSet::System)
        } else {
            None
        }),
{
    let n = chars_of(set_name);
    if crate::text::eq_chars(n.as_slice(), chars_of("@world").as_slice()) {
        Some(KnownSet::World)
    } else if crate::text::eq_chars(n.as_slice(), chars_of("@system").as_slice()) {
        Some(KnownSet::System)
    } else {
        None
    }
}

/// Expands a package set: the atoms of a known set (`members`), or the set
/// name itself when the set is unknown (`None`) or has no atoms, so that
/// the server may still handle it.
pub fn expand_set(set_name: &str, members: Option<Vec<String>>) -> (r: Vec<String>)
    ensures
        match members {
            Some(m) if m.len() > 0 => sv(r@) == sv(m@),
            _ => sv(r@) == seq![set_name@],
        },
{
    match members {
        Some(m) => {
            if m.len() > 0 {
                return m;
            }
        },
        None => {},
    }
    let mut out: Vec<String> = Vec::new();
    out.push(string_of(chars_of(set_name).as_slice()));
    assert(sv(out@) =~= seq![set_name@]);
    out
}

/// `s` without the trailing `c` characters (`str::trim_end_matches`).
pub open spec fn trim_end_char(s: Seq<char>, c: char) -> Seq<char>
    decreases s.len(),
{
    if s.len() > 0 && s.last() == c {
        trim_end_char(s.drop_last(), c)
    } else {
        s
    }
}

/// Whether the client snapshots a repository: not the main `gentoo`
/// repository, by name (in any case) or by a location that ends in
/// `/gentoo` (trailing slashes aside).
pub open spec fn snapshots_repo(name: Seq<char>, location: Seq<char>) -> bool {
    !eq_ignore_case(name, "gentoo"@) && !ends_with(trim_end_char(location, '/'), "/gentoo"@)
}

/// Whether the client snapshots a repository.
pub fn should_snapshot_repo(name: &str, location: &str) -> (r: bool)
    ensures
        r == snapshots_repo(name@, location@),
{
    if eq_ignore_ascii_case(chars_of(name).as_slice(), chars_of("gentoo").as_slice()) {
        return false;
    }
    let loc = chars_of(location);
    let mut end: usize = loc.len();
    assert(loc@.take(end as int) =~= location@);
    while end > 0 && loc[end - 1] == '/'
        invariant
            end <= loc.len(),
            trim_end_char(loc@.take(end as int), '/') == trim_end_char(location@, '/'),
        decreases end,
    {
        assert(loc@.take(end as int).drop_last() =~= loc@.take(end - 1));
        end = end - 1;
    }
    let trimmed = crate::text::sub_chars(loc.as_slice(), 0, end);
    assert(trimmed@ =~= loc@.take(end as int));
    !has_suffix(trimmed.as_slice(), chars_of("/gentoo").as_slice())
}

/// The first position from `i` on at which `p` occurs in `s`
/// (`str::find`).
pub open spec fn find_from(s: Seq<char>, p: Seq<char>, i: int) -> Option<int>
    decreases s.len() + 1 - i,
{
    if i < 0 || i + p.len() > s.len() {
        None
    } else if crate::text::occurs_at(s, p, i) {
        Some(i)
    } else {
        find_from(s, p, i + 1)
    }
}

/// The profile name in the target of `make.profile`: what follows the first
/// `profiles/`, or the whole target.
pub open spec fn profile_name(target: Seq<char>) -> Seq<char> {
    match find_from(target, "profiles/"@, 0) {
        Some(i) => target.skip(i + 9),
        None => target,
    }
}

/// The profile name in the target of `make.profile`.
pub fn profile_from_link(target: &str) -> (r: String)
    ensures
        r@ == profile_name(target@),
{
    let t = chars_of(target);
    let p = chars_of("profiles/");
    proof {
        reveal_strlit("profiles/");
    }
    let mut i: usize = 0;
    while i <= t.len() && p.len() <= t.len() - i
        invariant
            p@ == "profiles/"@,
            p.len() == 9,
            t@ == target@,
            i <= t.len() + 1,
            find_from(t@, p@, 0) == find_from(t@, p@, i as int),
        decreases t.len() + 1 - i,
    {
        if crate::text::occurs_at_exec(t.as_slice(), p.as_slice(), i) {
            let rest = crate::text::sub_chars(t.as_slice(), i + 9, t.len());
            assert(rest@ =~= t@.skip(i + 9));
            return string_of(rest.as_slice());
        }
        i = i + 1;
    }
    string_of(t.as_slice())
}

/// The architectures a profile path names directly.
pub open spec fn is_profile_arch(part: Seq<char>) -> bool {
    ||| part == "amd64"@
    ||| part == "arm64"@
    ||| part == "arm"@
    ||| part == "x86"@
    ||| part == "ppc64"@
    ||| part == "riscv"@
    ||| part == "s390"@
}

/// The first component of `parts` that names an architecture.
pub open spec fn first_arch(parts: Seq<Seq<char>>) -> Option<Seq<char>>
    decreases parts.len(),
{
    if parts.len() == 0 {
        None
    } else if is_profile_arch(parts[0]) {
        Some(parts[0])
    } else {
        first_arch(parts.drop_first())
    }
}

fn is_arch_name(part: &[char]) -> (r: bool)
    ensures
        r == is_profile_arch(part@),
{
    let e = |a: &str| -> (b: bool)
        ensures
            b == (part@ == a@),
        { crate::text::eq_chars(part, chars_of(a).as_slice()) };
    e("amd64") || e("arm64") || e("arm") || e("x86") || e("ppc64") || e("riscv") || e("s390")
}

/// The architecture a profile path names, if it names one.
pub fn arch_from_profile(profile: &str) -> (r: Option<String>)
    ensures
        match first_arch(crate::text::split_on(profile@, '/')) {
            Some(a) => r matches Some(s) && s@ == a,
            None => r is None,
        },
{
    let parts = crate::text::split_chars(chars_of(profile).as_slice(), '/');
    let mut i: usize = 0;
    assert(vv(parts@).skip(0) =~= vv(parts@));
    while i < parts.len()
        invariant
            i <= parts.len(),
            vv(parts@) == crate::text::split_on(profile@, '/'),
            first_arch(vv(parts@)) == first_arch(vv(parts@).skip(i as int)),
        decreases parts.len() - i,
    {
        assert(vv(parts@).skip(i as int)[0] == parts@[i as int]@);
        assert(vv(parts@).skip(i as int).drop_first() =~= vv(parts@).skip(i + 1));
        if is_arch_name(parts[i].as_slice()) {
            return Some(string_of(parts[i].as_slice()));
        }
        i = i + 1;
    }
    assert(vv(parts@).skip(parts.len() as int) =~= Seq::<Seq<char>>::empty());
    None
}

/// The architecture `uname -m` names, in portage's words; `amd64` when it
/// could not be run.
pub open spec fn arch_of_machine(stdout: Option<Seq<char>>) -> Seq<char> {
    match stdout {
        None => "amd64"@,
        Some(s) => if trim(s) == "x86_64"@ {
            "amd64"@
        } else if trim(s) == "aarch64"@ {
            "arm64"@
        } else {
            trim(s)
        },
    }
}

/// The architecture `uname -m` names, in portage's words.
pub fn arch_from_uname(stdout: Option<&str>) -> (r: String)
    ensures
        r@ == arch_of_machine(match stdout {
            Some(s) => Some(s@),
            None => None,
        }),
{
    match stdout {
        None => "amd64".to_string(),
        Some(s) => {
            let t = trim_chars(chars_of(s).as_slice());
            if crate::text::eq_chars(t.as_slice(), chars_of("x86_64").as_slice()) {
                "amd64".to_string()
            } else if crate::text::eq_chars(t.as_slice(), chars_of("aarch64").as_slice()) {
                "arm64".to_string()
            } else {
                string_of(t.as_slice())
            }
        },
    }
}

/// The version a program reports on its first line of output, trimmed;
/// `unknown` when it could not be run or printed nothing.
pub open spec fn reported_version(stdout: Option<Seq<char>>) -> Seq<char> {
    match stdout {
        Some(s) if lines(s).len() > 0 => trim(lines(s)[0]),
        _ => "unknown"@,
    }
}

/// The version a program reports on its first line of output.
pub fn version_from_output(stdout: Option<&str>) -> (r: String)
    ensures
        r@ == reported_version(match stdout {
            Some(s) => Some(s@),
            None => None,
        }),
{
    match stdout {
        Some(s) => {
            let ls = lines_of(chars_of(s).as_slice());
            if ls.len() > 0 {
                assert(vv(ls@)[0] == ls@[0]@);
                string_of(trim_chars(ls[0].as_slice()).as_slice())
            } else {
                "unknown".to_string()
            }
        },
        None => "unknown".to_string(),
    }
}

/// The first position of `c` in `s`, if it occurs.
pub open spec fn first_char_pos(s: Seq<char>, c: char) -> Option<int> {
    if exists|i: int| 0 <= i < s.len() && s[i] == c {
        Some(
            choose|i: int|
                0 <= i < s.len() && s[i] == c && forall|j: int| 0 <= j < i ==> s[j] != c,
        )
    } else {
        None
    }
}

fn first_char(s: &[char], c: char) -> (r: Option<usize>)
    ensures
        r matches Some(k) ==> k < s.len(),
        first_char_pos(s@, c) == match r {
            Some(k) => Some(k as int),
            None => None::<int>,
        },
{
    let r = crate::cflags::find_char(s, c);
    proof {
        match r {
            Some(k) => {
                assert(exists|i: int| 0 <= i < s@.len() && s@[i] == c && forall|j: int|
                    0 <= j < i ==> s@[j] != c) by {
                    assert(s@[k as int] == c);
                }
                let m = choose|i: int|
                    0 <= i < s@.len() && s@[i] == c && forall|j: int| 0 <= j < i ==> s@[j] != c;
                if m < k {
                    assert(s@[m] != c);
                }
                if k < m {
                    assert(s@[k as int] != c);
                }
            },
            None => {},
        }
    }
    r
}

/// A `[section]` header line of `repos.conf`.
pub open spec fn is_section_line(t: Seq<char>) -> bool {
    t.len() > 0 && t[0] == '[' && t.last() == ']'
}

/// The repository found when a section ends: one with a name other than
/// `DEFAULT` (in any case) and a location.
pub open spec fn flush_repo(
    name: Seq<char>,
    location: Option<Seq<char>>,
    found: Seq<(Seq<char>, Seq<char>)>,
) -> Seq<(Seq<char>, Seq<char>)> {
    if name.len() > 0 && !eq_ignore_case(name, "DEFAULT"@) && location is Some {
        found.push((name, location->Some_0))
    } else {
        found
    }
}

/// The state of a `repos.conf` scan: the section's name, its location if
/// one was given, and the repositories found before it.
pub type RepoScan = (Seq<char>, Option<Seq<char>>, Seq<(Seq<char>, Seq<char>)>);

/// One line of `repos.conf`: a header ends the section before it; a
/// `location = ...` line (key in any case) sets the section's location.
pub open spec fn scan_repo_line(st: RepoScan, line: Seq<char>) -> RepoScan {
    let t = trim(line);
    if is_section_line(t) {
        (trim(t.subrange(1, t.len() - 1)), None, flush_repo(st.0, st.1, st.2))
    } else {
        match first_char_pos(t, '=') {
            Some(k) => if eq_ignore_case(trim(t.take(k)), "location"@) {
                (st.0, Some(trim(t.skip(k + 1))), st.2)
            } else {
                st
            },
            None => st,
        }
    }
}

pub open spec fn scan_repo_lines(ls: Seq<Seq<char>>) -> RepoScan
    decreases ls.len(),
{
    if ls.len() == 0 {
        (Seq::empty(), None, Seq::empty())
    } else {
        scan_repo_line(scan_repo_lines(ls.drop_last()), ls.last())
    }
}

/// The repositories `repos.conf` declares with a location, in order.
pub open spec fn repo_sections(content: Seq<char>) -> Seq<(Seq<char>, Seq<char>)> {
    let st = scan_repo_lines(lines(content));
    flush_repo(st.0, st.1, st.2)
}

/// A header line made of `[` alone cannot be read.
pub open spec fn readable_repos_conf(content: Seq<char>) -> bool {
    forall|i: int| 0 <= i < lines(content).len() ==> trim(#[trigger] lines(content)[i]) != seq!['[']
}

pub open spec fn opt_chars(o: Option<Vec<char>>) -> Option<Seq<char>> {
    match o {
        Some(l) => Some(l@),
        None => None,
    }
}

pub open spec fn pairs_view(s: Seq<(String, String)>) -> Seq<(Seq<char>, Seq<char>)> {
    s.map_values(|e: (String, String)| (e.0@, e.1@))
}

fn flush_repo_exec(name: &Vec<char>, location: &Option<Vec<char>>, found: &mut Vec<(String, String)>)
    ensures
        final(found)@.map_values(|e: (String, String)| (e.0@, e.1@)) == flush_repo(
            name@,
            match location {
                Some(l) => Some(l@),
                None => None,
            },
            old(found)@.map_values(|e: (String, String)| (e.0@, e.1@)),
        ),
{
    if name.len() > 0 && !eq_ignore_ascii_case(name.as_slice(), chars_of("DEFAULT").as_slice()) {
        match location {
            Some(l) => {
                let ghost before = found@;
                found.push((string_of(name.as_slice()), string_of(l.as_slice())));
                assert(found@.map_values(|e: (String, String)| (e.0@, e.1@)) =~= before.map_values(
                    |e: (String, String)| (e.0@, e.1@),
                ).push((name@, l@)));
            },
            None => {},
        }
    }
}

/// The repositories a `repos.conf` file declares: each section's name with
/// its `location`, sections without a location and the `DEFAULT` section
/// left out.
pub fn parse_repo_sections(content: &str) -> (r: Vec<(String, String)>)
    requires
        readable_repos_conf(content@),
    ensures
        r@.map_values(|e: (String, String)| (e.0@, e.1@)) == repo_sections(content@),
{
    let ls = lines_of(chars_of(content).as_slice());
    let mut found: Vec<(String, String)> = Vec::new();
    let mut name: Vec<char> = Vec::new();
    let mut location: Option<Vec<char>> = None;
    let mut i: usize = 0;
    while i < ls.len()
        invariant
            i <= ls.len(),
            vv(ls@) == lines(content@),
            readable_repos_conf(content@),
            scan_repo_lines(vv(ls@).take(i as int)).0 == name@,
            scan_repo_lines(vv(ls@).take(i as int)).1 == opt_chars(location),
            scan_repo_lines(vv(ls@).take(i as int)).2 == pairs_view(found@),
        decreases ls.len() - i,
    {
        assert(vv(ls@).take(i + 1).drop_last() =~= vv(ls@).take(i as int));
        assert(vv(ls@).take(i + 1).last() == ls@[i as int]@);
        assert(trim(lines(content@)[i as int]) != seq!['[']);
        let ghost prev = scan_repo_lines(vv(ls@).take(i as int));
        let ghost line = ls@[i as int]@;
        assert(scan_repo_lines(vv(ls@).take(i + 1)) == scan_repo_line(prev, line));
        let t = trim_chars(ls[i].as_slice());
        if t.len() > 0 && t[0] == '[' && t[t.len() - 1] == ']' {
            assert(t@ != seq!['[']);
            assert(t.len() >= 2) by {
                if t.len() == 1 {
                    assert(t@ =~= seq!['[']);
                }
            }
            flush_repo_exec(&name, &location, &mut found);
            let inner = crate::text::sub_chars(t.as_slice(), 1, t.len() - 1);
            name = trim_chars(inner.as_slice());
            location = None;
            assert(is_section_line(trim(line)));
        } else {
            match first_char(t.as_slice(), '=') {
                Some(k) => {
                    let key = crate::text::sub_chars(t.as_slice(), 0, k);
                    let key_t = trim_chars(key.as_slice());
                    assert(key@ =~= t@.take(k as int));
                    if eq_ignore_ascii_case(key_t.as_slice(), chars_of("location").as_slice()) {
                        let value = crate::text::sub_chars(t.as_slice(), k + 1, t.len());
                        assert(value@ =~= t@.skip(k + 1));
                        location = Some(trim_chars(value.as_slice()));
                    }
                },
                None => {},
            }
        }
        i = i + 1;
    }
    assert(vv(ls@).take(ls.len() as int) =~= vv(ls@));
    flush_repo_exec(&name, &location, &mut found);
    found
}

/// The Python targets of a make.conf: the words of `PYTHON_TARGETS`, none
/// when it is not set.
pub fn python_targets(vars: &crate::strmap::StrMap<String>) -> (r: Vec<String>)
    requires
        vars.wf(),
    ensures
        sv(r@) == match vars.lookup("PYTHON_TARGETS"@) {
            Some(v) => words(v@),
            None => Seq::empty(),
        },
{
    proof {
        reveal_strlit("PYTHON_TARGETS");
    }
    match vars.get("PYTHON_TARGETS") {
        Some(v) => {
            let w = words_of(chars_of(v.as_str()).as_slice());
            crate::text::strings_of(&w)
        },
        None => {
            let out: Vec<String> = Vec::new();
            assert(sv(out@) =~= Seq::<Seq<char>>::empty());
            out
        },
    }
}

/// Where the distfiles directory comes from.
#[derive(Debug, Clone, PartialEq, Eq)]
pub enum DistdirSource {
    /// The `DISTDIR` environment variable, trimmed.
    Environment(String),
    /// `var/cache/distfiles` under the configuration root.
    UnderRoot,
    /// The answer of `portageq envvar DISTDIR`.
    Portageq(String),
    /// `/var/cache/distfiles`.
    Default,
}

pub open spec fn opt_str(o: Option<&str>) -> Option<Seq<char>> {
    match o {
        Some(s) => Some(s@),
        None => None,
    }
}

/// The distfiles directory: a non-blank `DISTDIR` in the environment, else
/// `var/cache/distfiles` under the root when it is a directory, else (only
/// for the running system) a non-empty answer of `portageq`, else
/// `/var/cache/distfiles`.
pub open spec fn distdir_source(
    env: Option<Seq<char>>,
    root_distdir_is_dir: bool,
    system_root: bool,
    portageq: Option<Seq<char>>,
) -> (Seq<char>, int) {
    match env {
        Some(v) if trim(v).len() > 0 => (trim(v), 0),
        _ => if root_distdir_is_dir {
            (Seq::empty(), 1)
        } else if !system_root {
            (Seq::empty(), 3)
        } else {
            match portageq {
                Some(p) if p.len() > 0 => (p, 2),
                _ => (Seq::empty(), 3),
            }
        },
    }
}

pub open spec fn source_view(d: DistdirSource) -> (Seq<char>, int) {
    match d {
        DistdirSource::Environment(v) => (v@, 0),
        DistdirSource::UnderRoot => (Seq::empty(), 1),
        DistdirSource::Portageq(v) => (v@, 2),
        DistdirSource::Default => (Seq::empty(), 3),
    }
}

/// Chooses where the distfiles directory comes from. `portageq` is its
/// answer for `DISTDIR`, trimmed, or `None` when it failed or was not
/// asked.
pub fn choose_distdir(
    env: Option<&str>,
    root_distdir_is_dir: bool,
    system_root: bool,
    portageq: Option<&str>,
) -> (r: DistdirSource)
    ensures
        source_view(r) == distdir_source(opt_str(env), root_distdir_is_dir, system_root, opt_str(portageq)),
{
    match env {
        Some(v) => {
            let t = trim_chars(chars_of(v).as_slice());
            if t.len() > 0 {
                return DistdirSource::Environment(string_of(t.as_slice()));
            }
        },
        None => {},
    }
    if root_distdir_is_dir {
        DistdirSource::UnderRoot
    } else if !system_root {
        DistdirSource::Default
    } else {
        match portageq {
            Some(p) => {
                if chars_of(p).len() > 0 {
                    DistdirSource::Portageq(string_of(chars_of(p).as_slice()))
                } else {
                    DistdirSource::Default
                }
            },
            None => DistdirSource::Default,
        }
    }
}

} // verus!

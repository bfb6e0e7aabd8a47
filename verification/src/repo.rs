//! The binary package repository: which files are packages, what their
//! CPV and index entry are, the `Packages` index text, and which old
//! versions a cleanup removes.
use vstd::prelude::*;

use crate::strmap::key_lt;
use crate::text::{
    append_chars, chars_of, concat_chars, contains_seq, decimal, ends_with, has_suffix,
    is_ascii_digit, is_digit, starts_with, string_of, sub_chars, u64_to_decimal,
};
use crate::version::{order_lex, Order};

verus! {

/// The binary package repository rooted at a directory.
pub struct BinpkgRepo {
    pub root: String,
}

impl BinpkgRepo {
    /// A repository rooted at `root`.
    pub fn new(root: String) -> (r: Self)
        ensures
            r.root == root,
    {
        BinpkgRepo { root }
    }
}

/// Metadata of one binary package.
pub struct PackageMeta {
    pub cpv: String,
    pub filename: String,
    pub relative_path: String,
    pub size: u64,
    pub sha256: String,
    pub is_gpkg: bool,
}

/// Position of the `-` that starts the version: the last `-` followed by a
/// digit, or -1.
pub open spec fn version_dash(s: Seq<char>) -> int
    decreases s.len(),
{
    if s.len() < 2 {
        -1
    } else if s[s.len() - 2] == '-' && is_ascii_digit(s.last()) {
        s.len() - 2
    } else {
        version_dash(s.drop_last())
    }
}

/// The package base (category/name) of a CPV: the CPV before its version.
pub open spec fn package_base(cpv: Seq<char>) -> Seq<char> {
    if version_dash(cpv) >= 0 {
        cpv.take(version_dash(cpv))
    } else {
        cpv
    }
}

proof fn lemma_version_dash(s: Seq<char>, i: int)
    requires
        0 <= i <= s.len(),
    ensures
        version_dash(s.take(i)) < i - 1 || i < 2,
        -1 <= version_dash(s.take(i)),
        i >= 2 && s[i - 2] == '-' && is_ascii_digit(s[i - 1]) ==> version_dash(s.take(i)) == i - 2,
        i >= 2 && !(s[i - 2] == '-' && is_ascii_digit(s[i - 1])) ==> version_dash(s.take(i))
            == version_dash(s.take(i - 1)),
    decreases i,
{
    if i >= 2 {
        assert(s.take(i).drop_last() =~= s.take(i - 1));
        lemma_version_dash(s, i - 1);
    }
}

/// Extract the package base name (category/name) from a CPV: the version
/// starts at the last `-` followed by a digit.
pub fn extract_package_base(cpv: &str) -> (r: String)
    ensures
        r@ == package_base(cpv@),
{
    let s = chars_of(cpv);
    let mut i: usize = s.len();
    assert(s@.take(i as int) =~= s@);
    while i >= 2
        invariant
            i <= s.len(),
            s@ == cpv@,
            version_dash(s@) == version_dash(s@.take(i as int)),
        decreases i,
    {
        proof {
            lemma_version_dash(s@, i as int);
        }
        if s[i - 2] == '-' && is_digit(s[i - 1]) {
            assert(version_dash(s@) == i - 2);
            let base = sub_chars(s.as_slice(), 0, i - 2);
            assert(base@ =~= s@.take(i - 2));
            assert(s@ == cpv@);
            assert(package_base(cpv@) == s@.take(i - 2));
            return string_of(base.as_slice());
        }
        i -= 1;
    }
    assert(s@.take(i as int).len() < 2);
    assert(version_dash(s@) == -1);
    string_of(s.as_slice())
}

/// A directory directly under the root that holds a category's packages.
pub open spec fn is_category_dir_name(name: Seq<char>) -> bool {
    contains_seq(name, "-"@) && !starts_with(name, "."@) && name != "Packages"@
}

/// Whether a subdirectory is scanned as a category (`dev-libs`, ...).
pub fn is_category_dir(name: &str) -> (r: bool)
    ensures
        r == is_category_dir_name(name@),
{
    let n = chars_of(name);
    crate::text::contains_chars(n.as_slice(), chars_of("-").as_slice())
        && !crate::text::has_prefix(n.as_slice(), chars_of(".").as_slice())
        && !crate::text::eq_chars(n.as_slice(), chars_of("Packages").as_slice())
}

/// A package file: `*.gpkg.tar`, or a file with extension `tbz2`.
pub open spec fn is_package_file_name(name: Seq<char>) -> bool {
    ends_with(name, ".gpkg.tar"@) || (ends_with(name, ".tbz2"@) && name.len() > 5)
}

/// Whether a file in the repository is a binary package.
pub fn is_package_file(name: &str) -> (r: bool)
    ensures
        r == is_package_file_name(name@),
{
    let n = chars_of(name);
    proof {
        reveal_strlit(".tbz2");
    }
    crate::text::has_suffix(n.as_slice(), chars_of(".gpkg.tar").as_slice()) || (
    crate::text::has_suffix(n.as_slice(), chars_of(".tbz2").as_slice()) && n.len() > 5)
}

/// A file name without its package extension.
pub open spec fn name_without_ext(f: Seq<char>) -> Seq<char> {
    if ends_with(f, ".gpkg.tar"@) {
        f.take(f.len() - 9)
    } else if ends_with(f, ".tbz2"@) {
        f.take(f.len() - 5)
    } else {
        f
    }
}

/// The CPV, relative path and format of a package file in `category` (or
/// at the top level).
pub open spec fn package_identity(f: Seq<char>, category: Option<Seq<char>>) -> (
    Seq<char>,
    Seq<char>,
    bool,
) {
    match category {
        Some(c) => (c + "/"@ + name_without_ext(f), c + "/"@ + f, ends_with(f, ".gpkg.tar"@)),
        None => (name_without_ext(f), f, ends_with(f, ".gpkg.tar"@)),
    }
}

/// The index entry of a package file from its name, its category, its size
/// and its SHA-256 digest.
pub fn package_meta(filename: &str, category: Option<&str>, size: u64, sha256: String) -> (r:
    PackageMeta)
    ensures
        (r.cpv@, r.relative_path@, r.is_gpkg) == package_identity(
            filename@,
            match category {
                Some(c) => Some(c@),
                None => None,
            },
        ),
        r.filename@ == filename@,
        r.size == size,
        r.sha256 == sha256,
{
    let f = chars_of(filename);
    proof {
        reveal_strlit(".gpkg.tar");
        reveal_strlit(".tbz2");
    }
    let is_gpkg = has_suffix(f.as_slice(), chars_of(".gpkg.tar").as_slice());
    let stem = if is_gpkg {
        sub_chars(f.as_slice(), 0, f.len() - 9)
    } else if has_suffix(f.as_slice(), chars_of(".tbz2").as_slice()) {
        sub_chars(f.as_slice(), 0, f.len() - 5)
    } else {
        sub_chars(f.as_slice(), 0, f.len())
    };
    assert(stem@ =~= name_without_ext(filename@));
    let (cpv, rel) = match category {
        Some(c) => {
            let mut prefix = chars_of(c);
            prefix.push('/');
            proof {
                reveal_strlit("/");
            }
            assert(prefix@ =~= c@ + "/"@);
            (concat_chars(prefix.as_slice(), stem.as_slice()), concat_chars(prefix.as_slice(), f.as_slice()))
        },
        None => (stem, sub_chars(f.as_slice(), 0, f.len())),
    };
    assert(rel@ =~= (match category {
        Some(c) => c@ + "/"@ + filename@,
        None => filename@,
    }));
    PackageMeta {
        cpv: string_of(cpv.as_slice()),
        filename: string_of(f.as_slice()),
        relative_path: string_of(rel.as_slice()),
        size,
        sha256,
        is_gpkg,
    }
}

/// The index block of one package.
pub open spec fn index_entry(m: PackageMeta) -> Seq<char> {
    "CPV: "@ + m.cpv@ + "\n"@ + "SIZE: "@ + decimal(m.size as nat) + "\n"@ + "SHA256: "@
        + m.sha256@ + "\n"@ + "PATH: "@ + m.relative_path@ + "\n"@ + (if m.is_gpkg {
        "BINPKG_FORMAT: gpkg\n"@
    } else {
        Seq::empty()
    }) + "\n"@
}

pub open spec fn index_entries(e: Seq<PackageMeta>) -> Seq<char>
    decreases e.len(),
{
    if e.len() == 0 {
        Seq::empty()
    } else {
        index_entries(e.drop_last()) + index_entry(e.last())
    }
}

/// The `Packages` index that portage reads from a binhost.
pub open spec fn packages_index(e: Seq<PackageMeta>) -> Seq<char> {
    "PACKAGES: "@ + decimal(e.len()) + "\n\n"@ + index_entries(e)
}

fn append_str(out: &mut Vec<char>, s: &str)
    ensures
        final(out)@ == old(out)@ + s@,
{
    let c = chars_of(s);
    append_chars(out, c.as_slice());
}

/// The text of the `Packages` index for the scanned packages.
pub fn packages_index_text(entries: &[PackageMeta]) -> (r: String)
    ensures
        r@ == packages_index(entries@),
{
    let mut out: Vec<char> = Vec::new();
    append_str(&mut out, "PACKAGES: ");
    append_chars(&mut out, u64_to_decimal(entries.len() as u64).as_slice());
    append_str(&mut out, "\n\n");
    let ghost head = out@;
    let mut i: usize = 0;
    while i < entries.len()
        invariant
            i <= entries.len(),
            out@ == head + index_entries(entries@.take(i as int)),
        decreases entries.len() - i,
    {
        let m = &entries[i];
        let ghost before = out@;
        append_str(&mut out, "CPV: ");
        append_str(&mut out, m.cpv.as_str());
        append_str(&mut out, "\n");
        append_str(&mut out, "SIZE: ");
        append_chars(&mut out, u64_to_decimal(m.size).as_slice());
        append_str(&mut out, "\n");
        append_str(&mut out, "SHA256: ");
        append_str(&mut out, m.sha256.as_str());
        append_str(&mut out, "\n");
        append_str(&mut out, "PATH: ");
        append_str(&mut out, m.relative_path.as_str());
        append_str(&mut out, "\n");
        if m.is_gpkg {
            append_str(&mut out, "BINPKG_FORMAT: gpkg\n");
        }
        append_str(&mut out, "\n");
        assert(out@ =~= before + index_entry(*m));
        assert(entries@.take(i + 1).drop_last() =~= entries@.take(i as int));
        i += 1;
    }
    assert(entries@.take(entries.len() as int) =~= entries@);
    string_of(out.as_slice())
}

/// Whether package `j` sorts before package `i` within its group: the same
/// base, and a smaller file name or the same name at an earlier position
/// (the order of a stable sort by file name).
pub open spec fn sorts_before(bases: Seq<Seq<char>>, names: Seq<Seq<char>>, j: int, i: int) -> bool {
    bases[j] == bases[i] && (key_lt(names[j], names[i]) || (names[j] == names[i] && j < i))
}

/// Number of packages among the first `n` that sort before package `i`.
pub open spec fn rank_below(bases: Seq<Seq<char>>, names: Seq<Seq<char>>, i: int, n: int) -> nat
    decreases n,
{
    if n <= 0 {
        0
    } else {
        rank_below(bases, names, i, n - 1) + (if sorts_before(bases, names, n - 1, i) {
            1nat
        } else {
            0nat
        })
    }
}

/// Number of packages among the first `n` whose base is `b`.
pub open spec fn group_count(bases: Seq<Seq<char>>, b: Seq<char>, n: int) -> nat
    decreases n,
{
    if n <= 0 {
        0
    } else {
        group_count(bases, b, n - 1) + (if bases[n - 1] == b {
            1nat
        } else {
            0nat
        })
    }
}

/// Whether a cleanup that keeps `keep` versions per package base removes
/// package `i`: its group is larger than `keep` and it is among the
/// oldest `size - keep` by file name.
pub open spec fn removed_by_cleanup(
    bases: Seq<Seq<char>>,
    names: Seq<Seq<char>>,
    keep: nat,
    i: int,
) -> bool {
    let size = group_count(bases, bases[i], bases.len() as int);
    size > keep && rank_below(bases, names, i, bases.len() as int) < size - keep
}

pub open spec fn bases_of(e: Seq<PackageMeta>) -> Seq<Seq<char>> {
    e.map_values(|m: PackageMeta| package_base(m.cpv@))
}

pub open spec fn names_of(e: Seq<PackageMeta>) -> Seq<Seq<char>> {
    e.map_values(|m: PackageMeta| m.filename@)
}

/// The packages (by position in `entries`) that a cleanup keeping the
/// `keep` newest versions of each package base removes, in ascending
/// position.
pub fn plan_version_cleanup(entries: &[PackageMeta], keep: usize) -> (r: Vec<usize>)
    ensures
        forall|k: int| 0 <= k < r.len() ==> #[trigger] r@[k] < entries.len(),
        forall|k: int, l: int| 0 <= k < l < r.len() ==> #[trigger] r@[k] < #[trigger] r@[l],
        forall|i: int|
            0 <= i < entries.len() ==> (#[trigger] r@.contains(i as usize) <==> removed_by_cleanup(
                bases_of(entries@),
                names_of(entries@),
                keep as nat,
                i,
            )),
{
    let n = entries.len();
    let mut bases: Vec<Vec<char>> = Vec::new();
    let mut names: Vec<Vec<char>> = Vec::new();
    let mut k: usize = 0;
    while k < n
        invariant
            k <= n,
            n == entries.len(),
            bases@.len() == k,
            names@.len() == k,
            forall|j: int| 0 <= j < k ==> (#[trigger] bases@[j])@ == bases_of(entries@)[j],
            forall|j: int| 0 <= j < k ==> (#[trigger] names@[j])@ == names_of(entries@)[j],
        decreases n - k,
    {
        bases.push(chars_of(extract_package_base(entries[k].cpv.as_str()).as_str()));
        names.push(chars_of(entries[k].filename.as_str()));
        k += 1;
    }
    let ghost gb = bases_of(entries@);
    let ghost gn = names_of(entries@);
    let mut out: Vec<usize> = Vec::new();
    let mut i: usize = 0;
    while i < n
        invariant
            i <= n,
            n == entries.len(),
            bases@.len() == n,
            names@.len() == n,
            gb == bases_of(entries@),
            gn == names_of(entries@),
            gb.len() == n,
            gn.len() == n,
            forall|j: int| 0 <= j < n ==> (#[trigger] bases@[j])@ == gb[j],
            forall|j: int| 0 <= j < n ==> (#[trigger] names@[j])@ == gn[j],
            forall|q: int| 0 <= q < out.len() ==> #[trigger] out@[q] < i,
            forall|q: int, l: int| 0 <= q < l < out.len() ==> #[trigger] out@[q] < #[trigger] out@[l],
            forall|x: int|
                0 <= x < i ==> (#[trigger] out@.contains(x as usize) <==> removed_by_cleanup(
                    gb,
                    gn,
                    keep as nat,
                    x,
                )),
        decreases n - i,
    {
        let mut size: usize = 0;
        let mut rank: usize = 0;
        let mut j: usize = 0;
        while j < n
            invariant
                j <= n,
                i < n,
                bases@.len() == n,
                names@.len() == n,
                gb.len() == n,
                gn.len() == n,
                forall|q: int| 0 <= q < n ==> (#[trigger] bases@[q])@ == gb[q],
                forall|q: int| 0 <= q < n ==> (#[trigger] names@[q])@ == gn[q],
                size == group_count(gb, gb[i as int], j as int),
                rank == rank_below(gb, gn, i as int, j as int),
                size <= j,
                rank <= j,
            decreases n - j,
        {
            let same = crate::text::eq_chars(bases[j].as_slice(), bases[i].as_slice());
            if same {
                size += 1;
                let o = crate::version::order_lex_exec(names[j].as_slice(), names[i].as_slice());
                let earlier = match o {
                    Order::Less => true,
                    Order::Equal => {
                        proof {
                            crate::strmap::lemma_order_lex_eq(names@[j as int]@, names@[i as int]@);
                        }
                        j < i
                    },
                    Order::Greater => {
                        proof {
                            crate::strmap::lemma_order_lex_eq(names@[j as int]@, names@[i as int]@);
                        }
                        false
                    },
                };
                if earlier {
                    rank += 1;
                }
            }
            j += 1;
        }
        let remove = size > keep && rank < size - keep;
        let ghost before = out@;
        if remove {
            out.push(i);
        }
        proof {
            assert forall|x: int|
                0 <= x < i + 1 implies (#[trigger] out@.contains(x as usize) <==> removed_by_cleanup(
                gb,
                gn,
                keep as nat,
                x,
            )) by {
                if x < i {
                    if out@.contains(x as usize) && remove {
                        let q = choose|q: int| 0 <= q < out@.len() && out@[q] == x as usize;
                        if q == out@.len() - 1 {
                            assert(out@[q] == i);
                        } else {
                            assert(before[q] == x as usize);
                            assert(before.contains(x as usize));
                        }
                    }
                    if before.contains(x as usize) {
                        let q = choose|q: int| 0 <= q < before.len() && before[q] == x as usize;
                        assert(out@[q] == x as usize);
                    }
                } else {
                    if remove {
                        assert(out@[out@.len() - 1] == i);
                    } else {
                        if out@.contains(x as usize) {
                            let q = choose|q: int| 0 <= q < out@.len() && out@[q] == x as usize;
                            assert(before[q] < i);
                        }
                    }
                }
            }
        }
        i += 1;
    }
    out
}

proof fn lemma_version_dash_last(s: Seq<char>)
    ensures
        version_dash(s) >= 0 ==> crate::version::is_version_dash(s, version_dash(s)) && forall|j: int|
            version_dash(s) < j ==> !crate::version::is_version_dash(s, j),
        version_dash(s) < 0 ==> forall|j: int| !crate::version::is_version_dash(s, j),
    decreases s.len(),
{
    if s.len() >= 2 && !(s[s.len() - 2] == '-' && is_ascii_digit(s.last())) {
        let t = s.drop_last();
        lemma_version_dash_last(t);
        assert forall|j: int| crate::version::is_version_dash(s, j) implies j < s.len() - 2
            && crate::version::is_version_dash(t, j) by {
            assert(t[j] == s[j]);
            if j + 1 < t.len() {
                assert(t[j + 1] == s[j + 1]);
            }
        }
    }
}

/// The package base of a CPV is the name that `split_name_version` gives:
/// both cut at the last `-` followed by an ASCII digit, and keep the whole
/// text when there is none.
pub proof fn law_package_base_is_split_name(s: Seq<char>)
    ensures
        package_base(s) == crate::version::split_name_version_spec(s).0,
{
    lemma_version_dash_last(s);
    if version_dash(s) >= 0 {
        let d = version_dash(s);
        assert(exists|i: int| crate::version::is_version_dash(s, i));
        let c = choose|i: int|
            crate::version::is_version_dash(s, i) && forall|j: int| i < j
                ==> !crate::version::is_version_dash(s, j);
        assert(crate::version::is_version_dash(s, d) && forall|j: int| d < j
            ==> !crate::version::is_version_dash(s, j));
        if c < d {
        }
        if d < c {
        }
        assert(c == d);
    }
}

} // verus!

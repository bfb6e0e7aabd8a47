//! The distfiles an ebuild repository's `Manifest` names: the second
//! field of every `DIST` line, kept when it is a plain file name.
use vstd::prelude::*;

use crate::paths::{components, has_special_component, is_absolute, normal_segments};
use crate::text::{chars_of, eq_chars, lines, lines_of, split_on, string_of, trim, trim_chars, vv, words, words_of};

verus! {

/// A distfile name that stays in the distfile directory: not blank, and,
/// read as a path, a single normal component.
pub open spec fn valid_distfile_basename(name: Seq<char>) -> bool {
    trim(name).len() > 0 && !is_absolute(name) && !has_special_component(name)
        && normal_segments(split_on(name, '/')).len() == 1
}

/// Whether a distfile name is a single plain file name.
pub fn is_valid_distfile_basename(name: &[char]) -> (r: bool)
    ensures
        r == valid_distfile_basename(name@),
{
    if trim_chars(name).len() == 0 {
        return false;
    }
    if name.len() > 0 && name[0] == '/' {
        return false;
    }
    let c = components(name);
    !c.special && c.normal.len() == 1
}

/// The distfile a Manifest line names, if it is a `DIST` line with a
/// plain file name.
pub open spec fn dist_entry(line: Seq<char>) -> Option<Seq<char>> {
    let w = words(line);
    if w.len() >= 2 && w[0] == "DIST"@ && valid_distfile_basename(w[1]) {
        Some(w[1])
    } else {
        None
    }
}

/// The distfiles named by a sequence of Manifest lines, in order.
pub open spec fn dist_entries(ls: Seq<Seq<char>>) -> Seq<Seq<char>>
    decreases ls.len(),
{
    if ls.len() == 0 {
        Seq::empty()
    } else {
        match dist_entry(ls.last()) {
            Some(n) => dist_entries(ls.drop_last()).push(n),
            None => dist_entries(ls.drop_last()),
        }
    }
}

/// The distfiles a Manifest names, in order.
pub fn parse_manifest_distfiles(content: &str) -> (r: Vec<String>)
    ensures
        crate::text::sv(r@) == dist_entries(lines(content@)),
{
    let ls = lines_of(chars_of(content).as_slice());
    let dist = chars_of("DIST");
    let mut out: Vec<String> = Vec::new();
    let mut i: usize = 0;
    while i < ls.len()
        invariant
            i <= ls.len(),
            vv(ls@) == lines(content@),
            dist@ == "DIST"@,
            crate::text::sv(out@) == dist_entries(vv(ls@).take(i as int)),
        decreases ls.len() - i,
    {
        assert(vv(ls@).take(i + 1).drop_last() =~= vv(ls@).take(i as int));
        assert(vv(ls@).take(i + 1).last() == ls@[i as int]@);
        let w = words_of(ls[i].as_slice());
        if w.len() >= 2 {
            assert(vv(w@)[0] == w@[0]@ && vv(w@)[1] == w@[1]@);
            if eq_chars(w[0].as_slice(), dist.as_slice()) && is_valid_distfile_basename(w[1].as_slice()) {
                let ghost before = out@;
                let name = string_of(w[1].as_slice());
                out.push(name);
                assert(crate::text::sv(out@) =~= crate::text::sv(before).push(name@));
            }
        }
        i += 1;
    }
    assert(vv(ls@).take(ls.len() as int) =~= vv(ls@));
    out
}

} // verus!

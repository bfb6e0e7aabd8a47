//! Relative paths as `std::path::Path::components` reads them on Unix: the
//! `/`-separated segments, where empty and inner `.` segments vanish, a
//! leading `.` is the current directory and `..` the parent directory.
use vstd::prelude::*;

use crate::text::{chars_of, join, join_chars, split_chars, split_on, vv};

verus! {

/// The segments of `p` that `Path::components` yields as normal
/// components: all but the empty ones and `.`.
pub open spec fn normal_segments(segs: Seq<Seq<char>>) -> Seq<Seq<char>>
    decreases segs.len(),
{
    if segs.len() == 0 {
        Seq::empty()
    } else {
        let rest = normal_segments(segs.drop_last());
        let s = segs.last();
        if s.len() == 0 || s == "."@ {
            rest
        } else {
            rest.push(s)
        }
    }
}

/// Whether a relative path has a component other than a normal one: a
/// leading `.` or a `..` anywhere.
pub open spec fn has_special_component(p: Seq<char>) -> bool {
    let segs = split_on(p, '/');
    segs[0] == "."@ || exists|i: int| 0 <= i < segs.len() && segs[i] == ".."@
}

/// The normal components of `p`, joined with `/`.
pub open spec fn normalized(p: Seq<char>) -> Seq<char> {
    join(normal_segments(split_on(p, '/')), "/"@)
}

/// A path that starts at the file system root.
pub open spec fn is_absolute(p: Seq<char>) -> bool {
    p.len() > 0 && p[0] == '/'
}

/// What `Path::components` finds in a path that is not absolute.
pub struct Components {
    /// A `.` at the start or a `..` anywhere.
    pub special: bool,
    /// The normal components, in order.
    pub normal: Vec<Vec<char>>,
}

/// Reads the components of a path.
pub fn components(path: &[char]) -> (r: Components)
    ensures
        r.special == has_special_component(path@),
        vv(r.normal@) == normal_segments(split_on(path@, '/')),
{
    let segs = split_chars(path, '/');
    proof {
        crate::text::lemma_split_on_nonempty(path@, '/');
    }
    let ghost sv = vv(segs@);
    let dot = chars_of(".");
    let dotdot = chars_of("..");
    let mut special = crate::text::eq_chars(segs[0].as_slice(), dot.as_slice());
    let mut normal: Vec<Vec<char>> = Vec::new();
    let mut i: usize = 0;
    while i < segs.len()
        invariant
            i <= segs.len(),
            sv == vv(segs@),
            sv == split_on(path@, '/'),
            sv.len() >= 1,
            dot@ == "."@,
            dotdot@ == ".."@,
            special == (sv[0] == "."@ || exists|j: int| 0 <= j < i && sv[j] == ".."@),
            vv(normal@) == normal_segments(sv.take(i as int)),
        decreases segs.len() - i,
    {
        let s = &segs[i];
        assert(sv[i as int] == s@);
        assert(sv.take(i + 1).drop_last() =~= sv.take(i as int));
        if crate::text::eq_chars(s.as_slice(), dotdot.as_slice()) {
            special = true;
        }
        if s.len() > 0 && !crate::text::eq_chars(s.as_slice(), dot.as_slice()) {
            let copy = crate::text::sub_chars(s.as_slice(), 0, s.len());
            assert(copy@ =~= s@);
            normal.push(copy);
            assert(vv(normal@) =~= normal_segments(sv.take(i as int)).push(s@));
        }
        i += 1;
    }
    assert(sv.take(segs.len() as int) =~= sv);
    Components { special, normal }
}

/// Joins path segments with `/`.
pub fn join_segments(segs: &Vec<Vec<char>>) -> (r: Vec<char>)
    ensures
        r@ == join(vv(segs@), "/"@),
{
    let sep = chars_of("/");
    join_chars(segs, sep.as_slice())
}

} // verus!

//! Worker images and containers: the image tag of a system, the Dockerfile
//! a worker image is built from, the mounts and environment of a worker
//! container, and which idle images the reaper removes.
use vstd::prelude::*;

use crate::text::{
    append_chars, chars_of, occurs_at, occurs_at_exec, split_chars, split_on, string_of, sub_chars,
    vv, words, words_of,
};

verus! {

/// `s` with every `a` replaced by `b` (`str::replace` on one character).
pub open spec fn replace_char(s: Seq<char>, a: char, b: char) -> Seq<char> {
    s.map_values(|c: char| if c == a { b } else { c })
}

fn replace_char_exec(s: &[char], a: char, b: char) -> (r: Vec<char>)
    ensures
        r@ == replace_char(s@, a, b),
{
    let mut r: Vec<char> = Vec::new();
    let mut i: usize = 0;
    while i < s.len()
        invariant
            i <= s.len(),
            r@ == replace_char(s@, a, b).take(i as int),
        decreases s.len() - i,
    {
        r.push(if s[i] == a { b } else { s[i] });
        assert(r@ =~= replace_char(s@, a, b).take(i + 1));
        i += 1;
    }
    assert(replace_char(s@, a, b).take(s.len() as int) =~= replace_char(s@, a, b));
    r
}

/// The tag of the worker image for a system: the prefix, then the CHOST
/// (`.` as `_`), the profile (`/` as `-`) and the last word of the GCC
/// version (`.` as `_`, `unknown` when there is none).
pub open spec fn image_tag_text(prefix: Seq<char>, chost: Seq<char>, profile: Seq<char>, gcc: Seq<char>) -> Seq<char> {
    let gcc_word = if words(gcc).len() > 0 {
        words(gcc).last()
    } else {
        "unknown"@
    };
    prefix + ":"@ + replace_char(chost, '.', '_') + "-"@ + replace_char(profile, '/', '-') + "-gcc"@
        + replace_char(gcc_word, '.', '_')
}

/// The tag of the worker image for a system.
pub fn image_tag(prefix: &str, chost: &str, profile: &str, gcc_version: &str) -> (r: String)
    ensures
        r@ == image_tag_text(prefix@, chost@, profile@, gcc_version@),
{
    let mut out = chars_of(prefix);
    append_chars(&mut out, chars_of(":").as_slice());
    append_chars(&mut out, replace_char_exec(chars_of(chost).as_slice(), '.', '_').as_slice());
    append_chars(&mut out, chars_of("-").as_slice());
    append_chars(&mut out, replace_char_exec(chars_of(profile).as_slice(), '/', '-').as_slice());
    append_chars(&mut out, chars_of("-gcc").as_slice());
    let ws = words_of(chars_of(gcc_version).as_slice());
    let word = if ws.len() > 0 {
        assert(vv(ws@).last() == ws@[ws.len() - 1]@);
        sub_chars(ws[ws.len() - 1].as_slice(), 0, ws[ws.len() - 1].len())
    } else {
        chars_of("unknown")
    };
    append_chars(&mut out, replace_char_exec(word.as_slice(), '.', '_').as_slice());
    string_of(out.as_slice())
}

/// The last position at which `p` occurs in `s`, if any.
pub open spec fn last_occurrence(s: Seq<char>, p: Seq<char>) -> Option<int> {
    if exists|i: int| occurs_at(s, p, i) {
        Some(choose|i: int| occurs_at(s, p, i) && forall|j: int| i < j ==> !occurs_at(s, p, j))
    } else {
        None
    }
}

/// The group of an image tag for the reaper: the tag after its first `:`
/// (the whole tag without one), cut before its last `-gcc`.
pub open spec fn tuple_key(tag: Seq<char>) -> Seq<char> {
    let parts = split_on(tag, ':');
    let suffix = if parts.len() > 1 {
        tag.skip(parts[0].len() + 1int)
    } else {
        tag
    };
    match last_occurrence(suffix, "-gcc"@) {
        Some(i) => suffix.take(i),
        None => suffix,
    }
}

/// The group of an image tag.
pub fn image_tuple_key(tag: &str) -> (r: String)
    ensures
        r@ == tuple_key(tag@),
{
    let t = chars_of(tag);
    let parts = split_chars(t.as_slice(), ':');
    proof {
        crate::text::lemma_split_on_nonempty(t@, ':');
    }
    assert(vv(parts@)[0] == parts@[0]@);
    let suffix = if parts.len() > 1 {
        proof {
            lemma_first_piece_len(t@, ':');
        }
        assert(parts@[0]@.len() < t@.len());
        assert(parts[0].len() < t.len());
        let r = sub_chars(t.as_slice(), parts[0].len() + 1, t.len());
        assert(r@ =~= tag@.skip(split_on(tag@, ':')[0].len() + 1int));
        r
    } else {
        sub_chars(t.as_slice(), 0, t.len())
    };
    assert(parts.len() <= 1 ==> suffix@ =~= tag@);
    let ghost spec_suffix = if split_on(tag@, ':').len() > 1 {
        tag@.skip(split_on(tag@, ':')[0].len() + 1int)
    } else {
        tag@
    };
    assert(suffix@ == spec_suffix);
    let pat = chars_of("-gcc");
    proof {
        reveal_strlit("-gcc");
    }
    let mut i: usize = suffix.len();
    while i > 0
        invariant
            i <= suffix.len(),
            pat@ == "-gcc"@,
            suffix@ == (if split_on(tag@, ':').len() > 1 {
                tag@.skip(split_on(tag@, ':')[0].len() + 1int)
            } else {
                tag@
            }),
            forall|j: int| i <= j ==> !occurs_at(suffix@, pat@, j),
        decreases i,
    {
        i -= 1;
        if occurs_at_exec(suffix.as_slice(), pat.as_slice(), i) {
            proof {
                let c = choose|k: int| occurs_at(suffix@, pat@, k) && forall|j: int| k < j ==> !occurs_at(suffix@, pat@, j);
                assert(occurs_at(suffix@, pat@, c) && forall|j: int| c < j ==> !occurs_at(suffix@, pat@, j));
                if c < i {
                    assert(!occurs_at(suffix@, pat@, i as int));
                }
                assert(c == i);
                assert(last_occurrence(suffix@, "-gcc"@) == Some(i as int));
            }
            let head = sub_chars(suffix.as_slice(), 0, i);
            assert(head@ =~= suffix@.take(i as int));
            return string_of(head.as_slice());
        }
    }
    assert forall|j: int| !occurs_at(suffix@, pat@, j) by {
        if j < 0 {
            assert(!occurs_at(suffix@, pat@, j));
        }
    }
    string_of(suffix.as_slice())
}

proof fn lemma_first_piece_len(s: Seq<char>, sep: char)
    requires
        split_on(s, sep).len() > 1,
    ensures
        split_on(s, sep)[0].len() < s.len(),
        s.take(split_on(s, sep)[0].len() as int) == split_on(s, sep)[0],
        s[split_on(s, sep)[0].len() as int] == sep,
    decreases s.len(),
{
    crate::text::lemma_split_on_nonempty(s.drop_last(), sep);
    let p = split_on(s.drop_last(), sep);
    if p.len() > 1 {
        lemma_first_piece_len(s.drop_last(), sep);
        assert(split_on(s, sep)[0] == p[0]);
        assert(s.take(p[0].len() as int) =~= s.drop_last().take(p[0].len() as int));
    } else {
        assert(s.last() == sep);
        assert(split_on(s, sep)[0] == p[0]);
        lemma_single_piece(s.drop_last(), sep);
        assert(s.take(p[0].len() as int) =~= s.drop_last());
    }
}

proof fn lemma_single_piece(s: Seq<char>, sep: char)
    requires
        split_on(s, sep).len() == 1,
    ensures
        split_on(s, sep)[0] == s,
    decreases s.len(),
{
    if s.len() > 0 {
        crate::text::lemma_split_on_nonempty(s.drop_last(), sep);
        lemma_single_piece(s.drop_last(), sep);
        assert(s.drop_last().push(s.last()) =~= s);
    }
}

/// Pieces of the crossdev setup, around the CHOST.
pub const CROSS_1: &'static str = "\n# \u{2500}\u{2500} Crossdev toolchain for ";
pub const CROSS_2: &'static str = " \u{2500}\u{2500}\u{2500}\u{2500}\u{2500}\u{2500}\u{2500}\u{2500}\u{2500}\u{2500}\u{2500}\u{2500}\u{2500}\u{2500}\u{2500}\u{2500}\u{2500}\u{2500}\u{2500}\u{2500}\u{2500}\u{2500}\u{2500}\u{2500}\u{2500}\u{2500}\n# Install crossdev and build the cross toolchain.\n# The emerge-";
pub const CROSS_3: &'static str = " wrapper is created automatically.\nRUN emerge --oneshot --quiet sys-devel/crossdev && \\\n    crossdev --stable -t ";
pub const CROSS_4: &'static str = "\n\n# Set CHOST and CBUILD so portage knows this is a cross-build.\n# (remerge-worker will also write these, but having them in the\n# base image speeds up subsequent builds.)\nRUN echo 'CHOST=\"";
pub const CROSS_5: &'static str = "\"' >> /etc/portage/make.conf && \\\n    echo 'CBUILD=\"x86_64-pc-linux-gnu\"' >> /etc/portage/make.conf\n";
/// Pieces of the Dockerfile, around the base image, the binary setup,
/// the crossdev setup and the binpkg mount.
pub const FILE_1: &'static str = "FROM ";
pub const FILE_2: &'static str = "\n\n";
pub const FILE_3: &'static str = "\n\n# Set up portage for building.\nRUN emerge --sync --quiet || true\n";
pub const FILE_4: &'static str = "\n# Create binpkg output directory.\nRUN mkdir -p ";
pub const FILE_5: &'static str = "\n\n# Default FEATURES for binary package creation.\nRUN echo 'FEATURES=\"buildpkg noclean\"' >> /etc/portage/make.conf && \\\n    echo 'PKGDIR=\"";
pub const FILE_6: &'static str = "\"' >> /etc/portage/make.conf\n\nWORKDIR /root\n\n# The entrypoint will be the remerge-worker binary.\nENTRYPOINT [\"/usr/local/bin/remerge-worker\"]\n";
/// How the worker binary gets into the image.
pub const INSTALL_BINARY: &'static str = "# Install remerge-worker binary from build context.\nCOPY remerge-worker /usr/local/bin/remerge-worker\nRUN chmod +x /usr/local/bin/remerge-worker";
pub const PREINSTALLED_BINARY: &'static str = "# Worker binary must be pre-installed in the image or mounted at runtime.";

/// Whether a CHOST is built across architectures: its first field is
/// neither `x86_64` nor `i686`.
pub open spec fn is_cross(chost: Seq<char>) -> bool {
    let arch = split_on(chost, '-')[0];
    arch != "x86_64"@ && arch != "i686"@
}

/// The stage3 image a worker image starts from.
pub open spec fn base_image(chost: Seq<char>, arch: Seq<char>) -> Seq<char> {
    if !is_cross(chost) && arch == "arm64"@ {
        "gentoo/stage3:arm64-latest"@
    } else {
        "gentoo/stage3:latest"@
    }
}

/// The crossdev setup of a cross-building image, empty otherwise.
pub open spec fn crossdev_block(chost: Seq<char>) -> Seq<char> {
    if is_cross(chost) {
        CROSS_1@ + chost + CROSS_2@ + chost + CROSS_3@ + chost + CROSS_4@ + chost + CROSS_5@
    } else {
        Seq::empty()
    }
}

/// The Dockerfile of a worker image.
pub open spec fn dockerfile_text(chost: Seq<char>, arch: Seq<char>, copy_binary: bool, binpkg_mount: Seq<char>) -> Seq<char> {
    FILE_1@ + base_image(chost, arch) + FILE_2@ + (if copy_binary {
        INSTALL_BINARY@
    } else {
        PREINSTALLED_BINARY@
    }) + FILE_3@ + crossdev_block(chost) + FILE_4@ + binpkg_mount + FILE_5@ + binpkg_mount + FILE_6@
}

fn cross_exec(chost: &[char]) -> (r: bool)
    ensures
        r == is_cross(chost@),
{
    let parts = split_chars(chost, '-');
    proof {
        crate::text::lemma_split_on_nonempty(chost@, '-');
    }
    assert(vv(parts@)[0] == parts@[0]@);
    let x86 = crate::text::eq_chars(parts[0].as_slice(), chars_of("x86_64").as_slice());
    let i686 = crate::text::eq_chars(parts[0].as_slice(), chars_of("i686").as_slice());
    !x86 && !i686
}

/// The Dockerfile of the worker image for a system: the matching stage3,
/// the worker binary copied in when the server has one, a crossdev
/// toolchain for another architecture, and binary package output to the
/// worker's binpkg mount.
pub fn generate_dockerfile(chost: &str, arch: &str, copy_binary: bool, binpkg_mount: &str) -> (r: String)
    ensures
        r@ == dockerfile_text(chost@, arch@, copy_binary, binpkg_mount@),
{
    let c = chars_of(chost);
    let cross = cross_exec(c.as_slice());
    let base = if !cross && crate::text::eq_chars(chars_of(arch).as_slice(), chars_of("arm64").as_slice()) {
        "gentoo/stage3:arm64-latest"
    } else {
        "gentoo/stage3:latest"
    };
    let mut out = chars_of(FILE_1);
    append_chars(&mut out, chars_of(base).as_slice());
    append_chars(&mut out, chars_of(FILE_2).as_slice());
    append_chars(&mut out, chars_of(if copy_binary { INSTALL_BINARY } else { PREINSTALLED_BINARY }).as_slice());
    append_chars(&mut out, chars_of(FILE_3).as_slice());
    let ghost before_cross = out@;
    if cross {
        append_chars(&mut out, chars_of(CROSS_1).as_slice());
        append_chars(&mut out, c.as_slice());
        append_chars(&mut out, chars_of(CROSS_2).as_slice());
        append_chars(&mut out, c.as_slice());
        append_chars(&mut out, chars_of(CROSS_3).as_slice());
        append_chars(&mut out, c.as_slice());
        append_chars(&mut out, chars_of(CROSS_4).as_slice());
        append_chars(&mut out, c.as_slice());
        append_chars(&mut out, chars_of(CROSS_5).as_slice());
    }
    assert(out@ =~= before_cross + crossdev_block(chost@));
    let m = chars_of(binpkg_mount);
    append_chars(&mut out, chars_of(FILE_4).as_slice());
    append_chars(&mut out, m.as_slice());
    append_chars(&mut out, chars_of(FILE_5).as_slice());
    append_chars(&mut out, m.as_slice());
    append_chars(&mut out, chars_of(FILE_6).as_slice());
    assert(out@ =~= dockerfile_text(chost@, arch@, copy_binary, binpkg_mount@));
    string_of(out.as_slice())
}

/// Where a worker mounts the signing keyring.
pub const WORKER_GPG_HOME: &'static str = "/var/cache/remerge/gnupg";

/// The bind mounts of a worker container: the binary package directory
/// at the worker's mount point, and the signing keyring read-only when
/// signing is configured.
pub fn worker_binds(binpkg_dir: &str, worker_binpkg_mount: &str, gpg_home: Option<&str>) -> (r: Vec<String>)
    ensures
        r.len() == (if gpg_home is Some { 2int } else { 1int }),
        r@[0]@ == binpkg_dir@ + ":"@ + worker_binpkg_mount@,
        gpg_home matches Some(h) ==> r@[1]@ == h@ + ":"@ + WORKER_GPG_HOME@ + ":ro"@,
{
    let mut first = chars_of(binpkg_dir);
    append_chars(&mut first, chars_of(":").as_slice());
    append_chars(&mut first, chars_of(worker_binpkg_mount).as_slice());
    let mut v: Vec<String> = Vec::new();
    v.push(string_of(first.as_slice()));
    match gpg_home {
        Some(h) => {
            let mut second = chars_of(h);
            append_chars(&mut second, chars_of(":").as_slice());
            append_chars(&mut second, chars_of(WORKER_GPG_HOME).as_slice());
            append_chars(&mut second, chars_of(":ro").as_slice());
            v.push(string_of(second.as_slice()));
        },
        None => {},
    }
    v
}

/// The environment of a worker container, before the load average: the
/// workorder, the signing key and keyring when set, and the number of
/// parallel jobs.
pub fn worker_env(workorder_json: &str, gpg_key: Option<&str>, signing_home: bool, parallel_jobs: u32) -> (r: Vec<String>)
    ensures
        r.len() == 2 + (if gpg_key is Some { 1int } else { 0int }) + (if signing_home { 1int } else { 0int }),
        r@[0]@ == "REMERGE_WORKORDER="@ + workorder_json@,
        gpg_key matches Some(k) ==> r@[1]@ == "REMERGE_GPG_KEY="@ + k@,
        signing_home ==> r@[r.len() - 2]@ == "REMERGE_GPG_HOME="@ + WORKER_GPG_HOME@,
        r@[r.len() - 1]@ == "REMERGE_PARALLEL_JOBS="@ + crate::text::decimal(parallel_jobs as nat),
{
    let mut v: Vec<String> = Vec::new();
    let mut e = chars_of("REMERGE_WORKORDER=");
    append_chars(&mut e, chars_of(workorder_json).as_slice());
    v.push(string_of(e.as_slice()));
    match gpg_key {
        Some(k) => {
            let mut g = chars_of("REMERGE_GPG_KEY=");
            append_chars(&mut g, chars_of(k).as_slice());
            v.push(string_of(g.as_slice()));
        },
        None => {},
    }
    if signing_home {
        let mut h = chars_of("REMERGE_GPG_HOME=");
        append_chars(&mut h, chars_of(WORKER_GPG_HOME).as_slice());
        v.push(string_of(h.as_slice()));
    }
    let mut j = chars_of("REMERGE_PARALLEL_JOBS=");
    append_chars(&mut j, crate::text::u64_to_decimal(parallel_jobs as u64).as_slice());
    v.push(string_of(j.as_slice()));
    v
}

/// A worker image and when it was last used, in nanoseconds of a
/// monotonic clock.
#[derive(Debug, Clone, PartialEq, Eq)]
pub struct ImageUse {
    pub tag: String,
    pub last_used_nanos: u64,
}

/// Whether image `i` is the most recently used of its group: every image
/// of the group before it was used earlier, and none after it later (so
/// of equal times the first one counts).
pub open spec fn newest_of_group(imgs: Seq<ImageUse>, i: int) -> bool {
    forall|j: int|
        0 <= j < imgs.len() && tuple_key(#[trigger] imgs[j].tag@) == tuple_key(imgs[i].tag@) ==> (j < i
            ==> imgs[j].last_used_nanos < imgs[i].last_used_nanos) && (i < j
            ==> imgs[j].last_used_nanos <= imgs[i].last_used_nanos)
}

pub open spec fn idle_nanos(now: u64, last: u64) -> int {
    if now >= last {
        now - last
    } else {
        0
    }
}

/// Whether the reaper removes image `i`: idle longer than the timeout and
/// not the most recently used of its group.
pub open spec fn reaped(imgs: Seq<ImageUse>, i: int, now: u64, timeout_secs: u64) -> bool {
    idle_nanos(now, imgs[i].last_used_nanos) > timeout_secs * 1000000000 && !newest_of_group(imgs, i)
}

/// The tags the reaper removes, in order.
pub open spec fn reaped_tags(imgs: Seq<ImageUse>, n: int, now: u64, timeout_secs: u64) -> Seq<Seq<char>>
    decreases n,
{
    if n <= 0 {
        Seq::empty()
    } else if reaped(imgs, n - 1, now, timeout_secs) {
        reaped_tags(imgs, n - 1, now, timeout_secs).push(imgs[n - 1].tag@)
    } else {
        reaped_tags(imgs, n - 1, now, timeout_secs)
    }
}

fn newest_exec(imgs: &Vec<ImageUse>, keys: &Vec<Vec<char>>, i: usize) -> (r: bool)
    requires
        i < imgs.len(),
        keys.len() == imgs.len(),
        forall|k: int| 0 <= k < keys.len() ==> (#[trigger] keys@[k])@ == tuple_key(imgs@[k].tag@),
    ensures
        r == newest_of_group(imgs@, i as int),
{
    let mut j: usize = 0;
    while j < imgs.len()
        invariant
            j <= imgs.len(),
            i < imgs.len(),
            keys.len() == imgs.len(),
            forall|k: int| 0 <= k < keys.len() ==> (#[trigger] keys@[k])@ == tuple_key(imgs@[k].tag@),
            forall|k: int|
                0 <= k < j && tuple_key(#[trigger] imgs@[k].tag@) == tuple_key(imgs@[i as int].tag@) ==> (k
                    < i ==> imgs@[k].last_used_nanos < imgs@[i as int].last_used_nanos) && (i < k
                    ==> imgs@[k].last_used_nanos <= imgs@[i as int].last_used_nanos),
        decreases imgs.len() - j,
    {
        assert(keys@[j as int]@ == tuple_key(imgs@[j as int].tag@));
        assert(keys@[i as int]@ == tuple_key(imgs@[i as int].tag@));
        if crate::text::eq_chars(keys[j].as_slice(), keys[i].as_slice()) {
            if j < i && imgs[j].last_used_nanos >= imgs[i].last_used_nanos {
                return false;
            }
            if i < j && imgs[j].last_used_nanos > imgs[i].last_used_nanos {
                return false;
            }
        }
        j += 1;
    }
    true
}

/// The idle images the reaper removes: those unused for longer than the
/// idle timeout, except the most recently used image of each group (same
/// CHOST and profile), which is kept whatever its age.
pub fn plan_image_reaping(imgs: &Vec<ImageUse>, now_nanos: u64, idle_timeout_secs: u64) -> (r: Vec<String>)
    ensures
        crate::text::sv(r@) == reaped_tags(imgs@, imgs.len() as int, now_nanos, idle_timeout_secs),
{
    let mut keys: Vec<Vec<char>> = Vec::new();
    let mut k: usize = 0;
    while k < imgs.len()
        invariant
            k <= imgs.len(),
            keys.len() == k,
            forall|m: int| 0 <= m < k ==> (#[trigger] keys@[m])@ == tuple_key(imgs@[m].tag@),
        decreases imgs.len() - k,
    {
        let key = image_tuple_key(imgs[k].tag.as_str());
        keys.push(chars_of(key.as_str()));
        k += 1;
    }
    let timeout: u128 = idle_timeout_secs as u128 * 1000000000;
    let mut out: Vec<String> = Vec::new();
    let mut i: usize = 0;
    while i < imgs.len()
        invariant
            i <= imgs.len(),
            keys.len() == imgs.len(),
            timeout == idle_timeout_secs * 1000000000,
            forall|m: int| 0 <= m < keys.len() ==> (#[trigger] keys@[m])@ == tuple_key(imgs@[m].tag@),
            crate::text::sv(out@) == reaped_tags(imgs@, i as int, now_nanos, idle_timeout_secs),
        decreases imgs.len() - i,
    {
        let last = imgs[i].last_used_nanos;
        let idle: u128 = if now_nanos >= last {
            (now_nanos - last) as u128
        } else {
            0
        };
        if idle > timeout && !newest_exec(imgs, &keys, i) {
            let ghost before = out@;
            out.push(imgs[i].tag.clone());
            assert(crate::text::sv(out@) =~= crate::text::sv(before).push(imgs@[i as int].tag@));
        }
        i += 1;
    }
    out
}

/// The image of a group that the reaper keeps among the first `n`: the
/// first of those used most recently, or -1 when the group has none there.
pub open spec fn kept_upto(imgs: Seq<ImageUse>, key: Seq<char>, n: int) -> int
    decreases n,
{
    if n <= 0 {
        -1
    } else {
        let b = kept_upto(imgs, key, n - 1);
        if tuple_key(imgs[n - 1].tag@) == key && (b == -1 || imgs[n - 1].last_used_nanos
            > imgs[b].last_used_nanos) {
            n - 1
        } else {
            b
        }
    }
}

proof fn lemma_kept_upto(imgs: Seq<ImageUse>, key: Seq<char>, n: int)
    requires
        0 <= n <= imgs.len(),
    ensures
        -1 <= kept_upto(imgs, key, n) < n,
        kept_upto(imgs, key, n) == -1 ==> forall|j: int| 0 <= j < n ==> tuple_key(#[trigger] imgs[j].tag@) != key,
        kept_upto(imgs, key, n) >= 0 ==> tuple_key(imgs[kept_upto(imgs, key, n)].tag@) == key,
        kept_upto(imgs, key, n) >= 0 ==> forall|j: int|
            0 <= j < n && tuple_key(#[trigger] imgs[j].tag@) == key ==> (j < kept_upto(imgs, key, n)
                ==> imgs[j].last_used_nanos < imgs[kept_upto(imgs, key, n)].last_used_nanos) && (
            kept_upto(imgs, key, n) < j ==> imgs[j].last_used_nanos <= imgs[kept_upto(
                imgs,
                key,
                n,
            )].last_used_nanos),
    decreases n,
{
    if n > 0 {
        lemma_kept_upto(imgs, key, n - 1);
    }
}

/// The reaper never empties a group: every image's group keeps its most
/// recently used image, however long that has been idle.
pub proof fn law_reaper_keeps_one_image_per_group(imgs: Seq<ImageUse>, now: u64, timeout_secs: u64, i: int)
    requires
        0 <= i < imgs.len(),
    ensures
        exists|j: int|
            0 <= j < imgs.len() && tuple_key(#[trigger] imgs[j].tag@) == tuple_key(imgs[i].tag@)
                && !reaped(imgs, j, now, timeout_secs),
{
    let key = tuple_key(imgs[i].tag@);
    lemma_kept_upto(imgs, key, imgs.len() as int);
    let b = kept_upto(imgs, key, imgs.len() as int);
    assert(b >= 0);
    assert(newest_of_group(imgs, b));
    assert(tuple_key(imgs[b].tag@) == key);
}

} // verus!

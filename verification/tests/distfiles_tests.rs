use remerge::distfiles::{is_valid_distfile_basename, parse_manifest_distfiles};

fn valid(s: &str) -> bool {
    is_valid_distfile_basename(&s.chars().collect::<Vec<char>>())
}

#[test]
fn parse_manifest_distfiles_allows_literal_double_dot_basenames() {
    let distfiles = parse_manifest_distfiles(
        "DIST foo..bar.tar.xz 123 BLAKE2B deadbeef SHA512 cafe\nDIST ../escape.tar.xz 1 BLAKE2B dead SHA512 beef\nDIST nested/file.tar.xz 1 BLAKE2B dead SHA512 beef\nDIST hello-1.0.tar.xz 123 BLAKE2B deadbeef SHA512 cafe\n",
    );
    assert_eq!(distfiles, vec!["foo..bar.tar.xz".to_string(), "hello-1.0.tar.xz".to_string()]);
}

#[test]
fn only_dist_lines_count() {
    let distfiles = parse_manifest_distfiles(
        "EBUILD foo-1.ebuild 10 BLAKE2B x\nDIST\nAUX files/patch 3 SHA512 y\r\n  DIST  spaced.tar.gz 1\n",
    );
    assert_eq!(distfiles, vec!["spaced.tar.gz".to_string()]);
}

#[test]
fn distfile_basenames_are_single_normal_components() {
    assert!(valid("hello-1.0.tar.xz"));
    assert!(valid("foo.."));
    assert!(valid("dir/"));
    assert!(!valid(".."));
    assert!(!valid("."));
    assert!(!valid("/abs"));
    assert!(!valid("a/b"));
    assert!(!valid(""));
    assert!(!valid("  "));
}

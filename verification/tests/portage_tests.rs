use std::cmp::Ordering;

use remerge::makeconf::parse_make_conf_vars;
use remerge::version::{compare_versions, parse_atom_operator, split_name_version, split_revision, AtomOp};

#[test]
fn parse_make_conf_variables() {
    let input = r#"
# Compiler flags
CFLAGS="-O2 -pipe -march=native"
CXXFLAGS="${CFLAGS}"
MAKEOPTS="-j12"
USE="X wayland -systemd pulseaudio"
ACCEPT_KEYWORDS="~amd64"
VIDEO_CARDS="amdgpu radeonsi"
"#;
    let vars = parse_make_conf_vars(input);
    assert_eq!(vars.get("CFLAGS").unwrap(), "-O2 -pipe -march=native");
    assert_eq!(vars.get("CXXFLAGS").unwrap(), "${CFLAGS}");
    assert_eq!(vars.get("MAKEOPTS").unwrap(), "-j12");
    assert_eq!(vars.get("USE").unwrap(), "X wayland -systemd pulseaudio");
    assert_eq!(vars.get("ACCEPT_KEYWORDS").unwrap(), "~amd64");
    assert_eq!(vars.get("VIDEO_CARDS").unwrap(), "amdgpu radeonsi");
}

#[test]
fn parse_continuation_lines() {
    let input = "USE=\"foo \\\nbar \\\nbaz\"";
    let vars = parse_make_conf_vars(input);
    assert_eq!(vars.get("USE").unwrap(), "foo bar baz");
}

#[test]
fn parse_make_conf_vars_does_not_panic_on_single_quote_value() {
    let vars = parse_make_conf_vars("BROKEN='");
    assert_eq!(vars.get("BROKEN").unwrap(), "'");
}

#[test]
fn parse_make_conf_vars_supports_multiline_quoted_values() {
    let vars = parse_make_conf_vars(
        "FEATURES=\"\nparallel-fetch\nparallel-install\ncandy\n\"\nUSE=\"\nwayland\nssl\n\"\n",
    );

    assert_eq!(
        vars.get("FEATURES").unwrap(),
        "\nparallel-fetch\nparallel-install\ncandy\n"
    );
    assert_eq!(vars.get("USE").unwrap(), "\nwayland\nssl\n");
}

#[test]
fn parse_make_conf_vars_supports_multiple_assignments_on_one_line() {
    let vars = parse_make_conf_vars(
        "COMMON_FLAGS=\"-O2 -pipe\" CFLAGS=\"${COMMON_FLAGS}\" MAKEOPTS=\"-j8\"",
    );

    assert_eq!(vars.get("COMMON_FLAGS").unwrap(), "-O2 -pipe");
    assert_eq!(vars.get("CFLAGS").unwrap(), "${COMMON_FLAGS}");
    assert_eq!(vars.get("MAKEOPTS").unwrap(), "-j8");
}

#[test]
fn make_conf_later_assignment_wins_and_missing_key_is_absent() {
    let vars = parse_make_conf_vars("A=\"1\"\nA=\"2\"\n");
    assert_eq!(vars.get("A").unwrap(), "2");
    assert!(vars.get("B").is_none());
    assert_eq!(vars.len(), 1);
}

#[test]
fn split_name_version_with_version() {
    assert_eq!(
        split_name_version("openssl-3.1.4"),
        ("openssl", Some("3.1.4"))
    );
}

#[test]
fn split_name_version_with_revision() {
    assert_eq!(
        split_name_version("openssl-3.1.4-r1"),
        ("openssl", Some("3.1.4-r1"))
    );
}

#[test]
fn split_name_version_no_version() {
    assert_eq!(split_name_version("openssl"), ("openssl", None));
}

#[test]
fn split_name_version_numeric_name() {
    assert_eq!(split_name_version("lib3ds-1.2"), ("lib3ds", Some("1.2")));
}

#[test]
fn compare_versions_basic() {
    assert_eq!(compare_versions("1.0", "1.0"), Ordering::Equal);
    assert_eq!(compare_versions("1.0", "2.0"), Ordering::Less);
    assert_eq!(compare_versions("2.0", "1.0"), Ordering::Greater);
}

#[test]
fn compare_versions_numeric_not_lexicographic() {
    assert_eq!(compare_versions("1.10", "1.9"), Ordering::Greater);
    assert_eq!(compare_versions("1.2", "1.10"), Ordering::Less);
}

#[test]
fn compare_versions_different_depth() {
    assert_eq!(compare_versions("1.2.3", "1.2"), Ordering::Greater);
    assert_eq!(compare_versions("1.2", "1.2.1"), Ordering::Less);
}

#[test]
fn compare_versions_revisions() {
    assert_eq!(compare_versions("3.1.4-r1", "3.1.4"), Ordering::Greater);
    assert_eq!(compare_versions("3.1.4-r1", "3.1.4-r2"), Ordering::Less);
    assert_eq!(compare_versions("3.1.4-r1", "3.1.4-r1"), Ordering::Equal);
}

#[test]
fn compare_versions_suffixes() {
    assert_eq!(compare_versions("1.0_alpha", "1.0_beta"), Ordering::Less);
    assert_eq!(compare_versions("1.0_beta", "1.0_pre"), Ordering::Less);
    assert_eq!(compare_versions("1.0_pre", "1.0_rc"), Ordering::Less);
    assert_eq!(compare_versions("1.0_rc", "1.0"), Ordering::Less);
    assert_eq!(compare_versions("1.0", "1.0_p"), Ordering::Less);
}

#[test]
fn compare_versions_numeric_suffixes() {
    assert_eq!(compare_versions("1.0_alpha", "1.0_alpha0"), Ordering::Equal);
    assert_eq!(compare_versions("1.0_alpha", "1.0_alpha1"), Ordering::Less);
    assert_eq!(compare_versions("1.0_alpha1", "1.0_alpha2"), Ordering::Less);
    assert_eq!(compare_versions("1.0_alpha2", "1.0_beta"), Ordering::Less);
    assert_eq!(compare_versions("1.0_rc1", "1.0_rc2"), Ordering::Less);
    assert_eq!(compare_versions("1.0_rc2", "1.0"), Ordering::Less);
    assert_eq!(compare_versions("1.0_p1", "1.0_p2"), Ordering::Less);
    assert_eq!(compare_versions("1.0", "1.0_p1"), Ordering::Less);
    assert_eq!(
        compare_versions("1.0_p20230101", "1.0_p20240101"),
        Ordering::Less
    );
    assert_eq!(
        compare_versions("1.0_p20240101", "1.0_p20240101"),
        Ordering::Equal
    );
}

#[test]
fn compare_versions_trailing_letter() {
    assert_eq!(compare_versions("1.1.1", "1.1.1a"), Ordering::Less);
    assert_eq!(compare_versions("1.1.1a", "1.1.1b"), Ordering::Less);
    assert_eq!(compare_versions("1.1.1w", "1.1.1z"), Ordering::Less);
    assert_eq!(compare_versions("1.1.1z", "1.1.2"), Ordering::Less);
    assert_eq!(compare_versions("1.1.1w", "1.1.1w"), Ordering::Equal);
    assert_eq!(compare_versions("1.1.1w", "3.1.0"), Ordering::Less);
}

#[test]
fn compare_versions_is_antisymmetric_on_samples() {
    let samples = ["1.0", "1.0_rc1", "1.0_p2", "1.1.1w", "3.1.4-r1", "1.10"];
    for a in samples {
        for b in samples {
            assert_eq!(compare_versions(a, b), compare_versions(b, a).reverse());
        }
    }
}

#[test]
fn split_revision_works() {
    assert_eq!(split_revision("3.1.4-r1"), ("3.1.4", Some("r1")));
    assert_eq!(split_revision("3.1.4"), ("3.1.4", None));
    assert_eq!(split_revision("3.1.4-r0"), ("3.1.4", Some("r0")));
}

#[test]
fn parse_atom_operator_works() {
    assert_eq!(
        parse_atom_operator("dev-libs/foo"),
        (AtomOp::Plain, "dev-libs/foo")
    );
    assert_eq!(
        parse_atom_operator("=dev-libs/foo-1.0"),
        (AtomOp::Eq, "dev-libs/foo-1.0")
    );
    assert_eq!(
        parse_atom_operator(">=dev-libs/foo-1.0"),
        (AtomOp::Ge, "dev-libs/foo-1.0")
    );
    assert_eq!(
        parse_atom_operator("<=dev-libs/foo-1.0"),
        (AtomOp::Le, "dev-libs/foo-1.0")
    );
    assert_eq!(
        parse_atom_operator(">dev-libs/foo-1.0"),
        (AtomOp::Gt, "dev-libs/foo-1.0")
    );
    assert_eq!(
        parse_atom_operator("<dev-libs/foo-1.0"),
        (AtomOp::Lt, "dev-libs/foo-1.0")
    );
    assert_eq!(
        parse_atom_operator("~dev-libs/foo-1.0"),
        (AtomOp::Tilde, "dev-libs/foo-1.0")
    );
    assert_eq!(
        parse_atom_operator("=dev-libs/foo-1.0*"),
        (AtomOp::EqGlob, "dev-libs/foo-1.0*")
    );
}

#[test]
fn version_order_is_transitive_on_examples() {
    let versions = [
        "1.0_alpha", "1.0_beta2", "1.0_pre", "1.0_rc1", "1.0", "1.0-r1", "1.0_p1", "1.0a",
        "1.0.1", "1.01", "2", "10", "1.0.0",
    ];
    for a in versions {
        for b in versions {
            assert_eq!(compare_versions(a, b), compare_versions(b, a).reverse());
            for c in versions {
                let ab = compare_versions(a, b);
                let bc = compare_versions(b, c);
                let ac = compare_versions(a, c);
                if ab == Ordering::Equal {
                    assert_eq!(ac, bc, "{a} {b} {c}");
                }
                if ab == bc {
                    assert_eq!(ac, ab, "{a} {b} {c}");
                }
            }
        }
    }
}

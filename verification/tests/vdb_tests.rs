use remerge::vdb::{is_installed_in, vdb_category};

fn entries(v: &[&str]) -> Vec<String> {
    v.iter().map(|s| s.to_string()).collect()
}

#[test]
fn sets_and_bare_names_are_not_looked_up() {
    assert_eq!(vdb_category("@world"), None);
    assert_eq!(vdb_category("firefox"), None);
    assert_eq!(vdb_category(">=dev-libs/openssl-3"), Some("dev-libs".to_string()));
    assert!(!is_installed_in("@world", &entries(&["world-1"])));
    assert!(!is_installed_in("firefox", &entries(&["firefox-120.0"])));
}

#[test]
fn plain_atoms_match_the_whole_name() {
    let e = entries(&["python-exec-2.4.10", "openssl-3.1.4-r1"]);
    assert!(is_installed_in("dev-lang/python-exec", &e));
    assert!(is_installed_in("dev-libs/openssl", &e));
    assert!(!is_installed_in("dev-libs/libressl", &e));
}

#[test]
fn version_operators() {
    let e = entries(&["openssl-3.1.4-r1"]);
    assert!(is_installed_in("=dev-libs/openssl-3.1.4-r1", &e));
    assert!(!is_installed_in("=dev-libs/openssl-3.1.4", &e));
    assert!(is_installed_in("=dev-libs/openssl-3.1*", &e));
    assert!(!is_installed_in("=dev-libs/openssl-3.2*", &e));
    assert!(is_installed_in("~dev-libs/openssl-3.1.4", &e));
    assert!(is_installed_in(">=dev-libs/openssl-3.1.4", &e));
    assert!(is_installed_in(">dev-libs/openssl-3.1.4", &e));
    assert!(!is_installed_in(">dev-libs/openssl-3.1.4-r1", &e));
    assert!(is_installed_in("<=dev-libs/openssl-3.1.4-r1", &e));
    assert!(is_installed_in("<dev-libs/openssl-3.10", &e));
    assert!(!is_installed_in("<dev-libs/openssl-3.1", &e));
}

#[test]
fn operator_without_version_accepts_any_version() {
    let e = entries(&["gcc-13.2.0"]);
    assert!(is_installed_in(">=sys-devel/gcc", &e));
    assert!(!is_installed_in(">=sys-devel/gcc", &entries(&[])));
}

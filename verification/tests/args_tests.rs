use remerge::args::{
    build_local_emerge_args, extract_package_atoms, file_binhost_uri, is_approved_parity_path,
    portage_binhost_env, resolve_parity_target, resolve_relative_target, sanitize_binpkg_path,
    workorder_emerge_args, PathError,
};
use remerge::verbosity::Verbosity;

#[test]
fn extract_package_atoms_preserves_sets_and_versioned_atoms() {
    let args = vec![
        "--ask".to_string(),
        "@world".to_string(),
        "=dev-libs/openssl-3.1.4".to_string(),
        "--with-bdeps=y".to_string(),
        "firefox".to_string(),
    ];

    assert_eq!(
        extract_package_atoms(&args),
        vec![
            "@world".to_string(),
            "=dev-libs/openssl-3.1.4".to_string(),
            "firefox".to_string(),
        ]
    );
}

#[test]
fn extract_package_atoms_ignores_option_like_values() {
    let args = vec![
        "--jobs=8".to_string(),
        "--keep-going".to_string(),
        "-av".to_string(),
    ];

    assert!(extract_package_atoms(&args).is_empty());
}

#[test]
fn pc_010_local_install_binhost_handoff_contract() {
    let args = vec!["dev-libs/openssl".to_string(), "--ask".to_string()];
    let local_args = build_local_emerge_args(&args);

    assert_eq!(
        local_args,
        vec![
            "--getbinpkg".to_string(),
            "--usepkg".to_string(),
            "dev-libs/openssl".to_string(),
            "--ask".to_string(),
        ]
    );
    assert_eq!(
        portage_binhost_env(Some("https://binhost.example.invalid/binpkgs")),
        Some("https://binhost.example.invalid/binpkgs".to_string())
    );
    assert_eq!(
        file_binhost_uri("/var/cache/binpkgs"),
        Some("file:///var/cache/binpkgs".to_string())
    );
    assert_eq!(portage_binhost_env(Some("   ")), None);
}

#[test]
fn binhost_env_trims_and_relative_pkgdir_has_no_uri() {
    assert_eq!(portage_binhost_env(Some("  http://b/ \n")), Some("http://b/".to_string()));
    assert_eq!(portage_binhost_env(None), None);
    assert_eq!(file_binhost_uri("var/cache/binpkgs"), None);
}

#[test]
fn binpkg_path_sanitizer_rejects_traversal() {
    assert!(sanitize_binpkg_path("dev-libs/openssl-3.4.0.gpkg.tar").is_ok());
    assert!(sanitize_binpkg_path("dev-libs/../shadow.gpkg.tar").is_err());
    assert!(sanitize_binpkg_path("/tmp/shadow.gpkg.tar").is_err());
}

#[test]
fn binpkg_path_sanitizer_normalises_components() {
    assert_eq!(sanitize_binpkg_path("a//b/./c/"), Ok("a/b/c".to_string()));
    assert_eq!(sanitize_binpkg_path("./a"), Err(PathError::Traversal));
    assert_eq!(sanitize_binpkg_path("/a"), Err(PathError::Absolute));
    assert_eq!(sanitize_binpkg_path(""), Err(PathError::Empty));
    assert_eq!(sanitize_binpkg_path("a/.."), Err(PathError::Traversal));
}

#[test]
fn resolve_parity_target_rejects_excluded_paths() {
    let error = resolve_parity_target("/", "var/db/pkg/sys-apps/portage-3.0.0/CONTENTS")
        .expect_err("excluded VDB path should be rejected");

    assert_eq!(
        error,
        PathError::NotApproved { path: "var/db/pkg/sys-apps/portage-3.0.0/CONTENTS".to_string() }
    );
}

#[test]
fn parity_targets_inside_the_approved_set_resolve_under_root() {
    assert_eq!(
        resolve_parity_target("/", "var/lib/portage/world"),
        Ok("/var/lib/portage/world".to_string())
    );
    assert_eq!(
        resolve_parity_target("/tmp/root", "var/db/repos/gentoo/metadata/timestamp"),
        Ok("/tmp/root/var/db/repos/gentoo/metadata/timestamp".to_string())
    );
    assert_eq!(
        resolve_relative_target("/tmp/root/", "var/cache/distfiles/a.tar.xz"),
        Ok("/tmp/root/var/cache/distfiles/a.tar.xz".to_string())
    );
    assert!(is_approved_parity_path("var/cache/binpkgs/Packages"));
    assert!(is_approved_parity_path("var/cache/eclass"));
    assert!(is_approved_parity_path("var/db/repos/gentoo/Packages"));
    assert!(!is_approved_parity_path("var/db/repos/gentoo/Packages/x"));
    assert!(!is_approved_parity_path("var/cache/binpkgs/dev-libs"));
}

#[test]
fn test_workorder_emerge_args_at_most_one_verbosity_flag() {
    let base = vec!["@world".to_string()];
    let args = workorder_emerge_args(&base, Verbosity::VerboseTrace);
    assert_eq!(
        args.iter().filter(|a| *a == "--verbose").count(),
        1,
        "VerboseTrace must inject exactly one --verbose"
    );

    let with_v = vec!["--verbose".to_string(), "@world".to_string()];
    let args = workorder_emerge_args(&with_v, Verbosity::VerboseDebug);
    let count_v = args
        .iter()
        .filter(|a| *a == "--verbose" || *a == "-v")
        .count();
    assert_eq!(count_v, 1, "should not duplicate --verbose when already present");

    let with_short = vec!["-v".to_string(), "=dev-libs/foo-1.0".to_string()];
    let args = workorder_emerge_args(&with_short, Verbosity::Verbose);
    let count_sv = args
        .iter()
        .filter(|a| *a == "--verbose" || *a == "-v")
        .count();
    assert_eq!(count_sv, 1, "should not add --verbose when -v already present");

    let args = workorder_emerge_args(&base, Verbosity::Quiet);
    assert_eq!(
        args.iter().filter(|a| *a == "--quiet" || *a == "-q").count(),
        1,
        "Quiet must inject exactly one --quiet"
    );
    assert_eq!(args[0], "--quiet");
    assert_eq!(workorder_emerge_args(&base, Verbosity::Normal), base);
}

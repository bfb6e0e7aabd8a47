use remerge::repo::{
    extract_package_base, is_category_dir, is_package_file, package_meta, packages_index_text,
    plan_version_cleanup, BinpkgRepo,
};

#[test]
fn extract_base_from_cpv() {
    assert_eq!(
        extract_package_base("dev-libs/openssl-3.1.4"),
        "dev-libs/openssl"
    );
    assert_eq!(
        extract_package_base("sys-libs/glibc-2.38-r10"),
        "sys-libs/glibc"
    );
    assert_eq!(extract_package_base("dev-libs/foo"), "dev-libs/foo");
}

#[test]
fn package_files_and_categories_are_recognised() {
    assert!(is_package_file("openssl-3.1.4.gpkg.tar"));
    assert!(is_package_file("openssl-3.1.4.tbz2"));
    assert!(!is_package_file(".tbz2"));
    assert!(!is_package_file("Packages"));
    assert!(is_category_dir("dev-libs"));
    assert!(!is_category_dir(".cache-x"));
    assert!(!is_category_dir("virtual"));
}

#[test]
fn package_meta_and_index_text() {
    let repo = BinpkgRepo::new("/var/cache/binpkgs".to_string());
    assert_eq!(repo.root, "/var/cache/binpkgs");
    let a = package_meta("openssl-3.1.4.gpkg.tar", Some("dev-libs"), 10, "ab".to_string());
    assert_eq!(a.cpv, "dev-libs/openssl-3.1.4");
    assert_eq!(a.relative_path, "dev-libs/openssl-3.1.4.gpkg.tar");
    assert!(a.is_gpkg);
    let b = package_meta("zlib-1.3.tbz2", None, 5, "cd".to_string());
    assert_eq!(b.cpv, "zlib-1.3");
    assert!(!b.is_gpkg);
    let text = packages_index_text(&[a, b]);
    assert_eq!(
        text,
        "PACKAGES: 2\n\nCPV: dev-libs/openssl-3.1.4\nSIZE: 10\nSHA256: ab\nPATH: dev-libs/openssl-3.1.4.gpkg.tar\nBINPKG_FORMAT: gpkg\n\nCPV: zlib-1.3\nSIZE: 5\nSHA256: cd\nPATH: zlib-1.3.tbz2\n\n"
    );
    assert_eq!(packages_index_text(&[]), "PACKAGES: 0\n\n");
}

#[test]
fn cleanup_removes_oldest_versions_beyond_keep() {
    let entries = vec![
        package_meta("openssl-3.1.5.gpkg.tar", Some("dev-libs"), 1, String::new()),
        package_meta("openssl-3.1.4.gpkg.tar", Some("dev-libs"), 1, String::new()),
        package_meta("zlib-1.3.gpkg.tar", Some("sys-libs"), 1, String::new()),
        package_meta("openssl-3.1.6.gpkg.tar", Some("dev-libs"), 1, String::new()),
    ];
    assert_eq!(plan_version_cleanup(&entries, 1), vec![0, 1]);
    assert_eq!(plan_version_cleanup(&entries, 2), vec![1]);
    assert_eq!(plan_version_cleanup(&entries, 3), Vec::<usize>::new());
    assert_eq!(plan_version_cleanup(&entries, 0), vec![0, 1, 2, 3]);
}

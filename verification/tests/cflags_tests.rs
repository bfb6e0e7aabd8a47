use remerge::cflags::{extract_march_value, resolve_cflags};

#[test]
fn resolve_march_native_in_cflags() {
    let (resolved, modified) =
        resolve_cflags("-O2 -pipe -march=native -fomit-frame-pointer", "skylake");
    assert!(modified);
    assert_eq!(resolved, "-O2 -pipe -march=skylake -fomit-frame-pointer");
}

#[test]
fn resolve_march_and_mtune_native() {
    let (resolved, modified) = resolve_cflags("-O2 -march=native -mtune=native", "znver3");
    assert!(modified);
    assert_eq!(resolved, "-O2 -march=znver3 -mtune=znver3");
}

#[test]
fn no_native_flags_unchanged() {
    let (resolved, modified) = resolve_cflags("-O2 -pipe -march=skylake", "skylake");
    assert!(!modified);
    assert_eq!(resolved, "-O2 -pipe -march=skylake");
}

#[test]
fn extract_march_from_flags() {
    assert_eq!(
        extract_march_value("-march=skylake -mmmx -mpopcnt"),
        Some("skylake".to_string())
    );
    assert_eq!(extract_march_value("-O2 -pipe"), None);
    assert_eq!(extract_march_value("-march=native"), None);
}

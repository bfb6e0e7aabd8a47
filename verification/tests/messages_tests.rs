use remerge::args::{check_emerge_args, resolve_parity_target, sanitize_binpkg_path, PathError};
use remerge::repo::extract_package_base;
use remerge::retry::{give_up_message, run_upload_attempts};
use remerge::signing::{validate_signing_config, SigningConfig, SigningError, SigningPurpose};
use remerge::version::split_name_version;

#[test]
fn half_configured_signing_is_refused_with_the_server_text() {
    let half = SigningConfig { gpg_key: Some("ABC".to_string()), gpg_home: None };
    let err = validate_signing_config(&half).unwrap_err();
    assert_eq!(err, SigningError::Incomplete);
    assert_eq!(
        err.message(SigningPurpose::Startup).unwrap(),
        "Binary package signing must set both `gpg_key` and `gpg_home` before starting remerge-server."
    );
    assert_eq!(
        err.message(SigningPurpose::Export).unwrap(),
        "Binary package signing must set both `gpg_key` and `gpg_home` before exporting the public key."
    );
    assert_eq!(
        SigningError::EmptyKey.message(SigningPurpose::Startup).unwrap(),
        "Configured signing key is empty. Set `gpg_key` to the signing key fingerprint or key ID."
    );
    assert_eq!(SigningError::NoSecretKey.message(SigningPurpose::Startup), None);
}

#[test]
fn excluded_parity_path_names_the_include_set() {
    let err = resolve_parity_target("/", "var/db/pkg/sys-apps/portage-3.0.0/CONTENTS").unwrap_err();
    assert!(matches!(err, PathError::NotApproved { .. }));
    assert!(err.message().contains("outside the approved include set"));
    assert_eq!(
        err.message(),
        "Parity path is outside the approved include set: var/db/pkg/sys-apps/portage-3.0.0/CONTENTS"
    );
    assert_eq!(resolve_parity_target("/", "var/lib/portage/world").unwrap(), "/var/lib/portage/world");
    assert_eq!(sanitize_binpkg_path("/x").unwrap_err().message(), "absolute paths are not allowed");
    assert_eq!(sanitize_binpkg_path("a/../b").unwrap_err().message(), "path traversal is not allowed");
    assert_eq!(sanitize_binpkg_path("").unwrap_err().message(), "empty paths are not allowed");
}

#[test]
fn giving_up_an_upload_names_the_blob_and_the_attempts() {
    let (attempts, succeeded) = run_upload_attempts(3, &vec![false, false, false]);
    assert!(!succeeded);
    assert_eq!(
        give_up_message("abc123", attempts),
        "Failed to upload snapshot blob abc123 after 3 attempt(s)"
    );
}

#[test]
fn a_run_needs_emerge_arguments() {
    assert_eq!(
        check_emerge_args(&[]),
        Err("No emerge arguments provided.  Usage: remerge [OPTIONS] <emerge-args>...".to_string())
    );
    assert_eq!(check_emerge_args(&["world".to_string()]), Ok(()));
}

#[test]
fn retry_count_is_first_success_plus_one_at_most_the_limit() {
    for n in 1..5usize {
        for f in 0..6usize {
            let mut outcomes = vec![false; f];
            outcomes.push(true);
            while outcomes.len() < n {
                outcomes.push(false);
            }
            let (made, ok) = run_upload_attempts(n, &outcomes);
            assert_eq!(made, (f + 1).min(n));
            assert_eq!(ok, f < n);
        }
    }
}

#[test]
fn package_base_agrees_with_split_name_version() {
    for s in ["dev-libs/openssl-3.4.0", "sys-apps/python-exec-2.4", "a/b", "x-1-2", "-1", "a-b-c"] {
        assert_eq!(extract_package_base(s), split_name_version(s).0);
    }
}

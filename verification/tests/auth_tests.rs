use remerge::auth::{
    normalise_fingerprint, AuthConfig, AuthError, AuthMethod, AuthMode, CertEntry, CertRegistry,
    ClientRole, DEFAULT_CERT_HEADER,
};

const MAIN_FP: &str = "sha256:AA:BB:CC:DD:EE:FF:00:11:22:33:44:55:66:77:88:99:aa:bb:cc:dd:ee:ff:00:11:22:33:44:55:66:77:88:99";
const ENTRY_ID: u128 = 0x550e8400_e29b_41d4_a716_446655440000;
const BODY_ID: u128 = 0x0123_4567_89ab_cdef_0123_4567_89ab_cdef;

fn make_config(mode: AuthMode, clients: Vec<CertEntry>) -> AuthConfig {
    AuthConfig { mode, cert_header: DEFAULT_CERT_HEADER.to_string(), clients }
}

fn main_entry() -> CertEntry {
    CertEntry {
        fingerprint: MAIN_FP.to_string(),
        client_id: ENTRY_ID,
        role: ClientRole::Main,
        label: Some("build-master".to_string()),
    }
}

fn follower_entry() -> CertEntry {
    CertEntry {
        fingerprint: "ff:ee:dd:cc".to_string(),
        client_id: ENTRY_ID,
        role: ClientRole::Follower,
        label: Some("build-node-02".to_string()),
    }
}

#[test]
fn normalise_strips_prefix_and_colons() {
    assert_eq!(normalise_fingerprint("sha256:AB:CD:EF:01"), "abcdef01");
}

#[test]
fn normalise_handles_uppercase_prefix() {
    assert_eq!(normalise_fingerprint("SHA256:AB:CD:EF"), "abcdef");
}

#[test]
fn normalise_handles_mixed_case_prefix() {
    assert_eq!(normalise_fingerprint("Sha256:AB:CD:EF"), "abcdef");
}

#[test]
fn normalise_handles_spaces() {
    assert_eq!(normalise_fingerprint("ab cd ef"), "abcdef");
}

#[test]
fn normalise_already_clean() {
    assert_eq!(normalise_fingerprint("abcdef01"), "abcdef01");
}

#[test]
fn normalise_empty() {
    assert_eq!(normalise_fingerprint(""), "");
    assert_eq!(normalise_fingerprint("   "), "");
}

#[test]
fn none_mode_passes_body_identity() {
    let reg = CertRegistry::new(&make_config(AuthMode::NoAuth, vec![main_entry()]));
    let id = reg.resolve(None, BODY_ID, ClientRole::Main).unwrap();

    assert_eq!(id.client_id, BODY_ID);
    assert_eq!(id.role, ClientRole::Main);
    assert!(matches!(id.method, AuthMethod::SelfDeclared));
}

#[test]
fn none_mode_ignores_cert_header() {
    let reg = CertRegistry::new(&make_config(AuthMode::NoAuth, vec![main_entry()]));
    let id = reg.resolve(Some(MAIN_FP), BODY_ID, ClientRole::Follower).unwrap();

    assert_eq!(id.client_id, BODY_ID);
    assert_eq!(id.role, ClientRole::Follower);
}

#[test]
fn mtls_mode_uses_cert_identity() {
    let reg = CertRegistry::new(&make_config(AuthMode::Mtls, vec![main_entry()]));
    let id = reg.resolve(Some(MAIN_FP), BODY_ID, ClientRole::Follower).unwrap();

    assert_eq!(id.client_id, ENTRY_ID);
    assert_eq!(id.role, ClientRole::Main);
    assert!(matches!(id.method, AuthMethod::Certificate { .. }));
}

#[test]
fn mtls_mode_rejects_missing_cert() {
    let reg = CertRegistry::new(&make_config(AuthMode::Mtls, vec![main_entry()]));
    let result = reg.resolve(None, BODY_ID, ClientRole::Main);
    assert!(matches!(result, Err(AuthError::CertificateRequired)));
}

#[test]
fn mtls_mode_rejects_unknown_cert() {
    let reg = CertRegistry::new(&make_config(AuthMode::Mtls, vec![main_entry()]));
    let result = reg.resolve(Some("00:00:00:00"), BODY_ID, ClientRole::Main);
    assert!(matches!(result, Err(AuthError::UnknownCertificate(_))));
}

#[test]
fn mtls_mode_rejects_empty_header() {
    let reg = CertRegistry::new(&make_config(AuthMode::Mtls, vec![main_entry()]));
    let result = reg.resolve(Some(""), BODY_ID, ClientRole::Main);
    assert!(matches!(result, Err(AuthError::CertificateRequired)));
}

#[test]
fn mixed_mode_cert_overrides_body() {
    let reg = CertRegistry::new(&make_config(AuthMode::Mixed, vec![main_entry()]));
    let id = reg.resolve(Some(MAIN_FP), BODY_ID, ClientRole::Follower).unwrap();

    assert_eq!(id.client_id, ENTRY_ID);
    assert_eq!(id.role, ClientRole::Main);
}

#[test]
fn mixed_mode_follower_without_cert_allowed() {
    let reg = CertRegistry::new(&make_config(AuthMode::Mixed, vec![main_entry()]));
    let id = reg.resolve(None, BODY_ID, ClientRole::Follower).unwrap();

    assert_eq!(id.client_id, BODY_ID);
    assert_eq!(id.role, ClientRole::Follower);
    assert!(matches!(id.method, AuthMethod::SelfDeclared));
}

#[test]
fn mixed_mode_main_without_cert_rejected() {
    let reg = CertRegistry::new(&make_config(AuthMode::Mixed, vec![main_entry()]));
    let result = reg.resolve(None, BODY_ID, ClientRole::Main);
    assert!(matches!(result, Err(AuthError::MainRequiresCert)));
}

#[test]
fn mixed_mode_unknown_cert_rejected() {
    let reg = CertRegistry::new(&make_config(AuthMode::Mixed, vec![main_entry()]));
    let result = reg.resolve(Some("de:ad:be:ef"), BODY_ID, ClientRole::Follower);
    assert!(matches!(result, Err(AuthError::UnknownCertificate(_))));
}

#[test]
fn mixed_mode_follower_with_valid_cert_authenticated() {
    let reg = CertRegistry::new(&make_config(
        AuthMode::Mixed,
        vec![main_entry(), follower_entry()],
    ));
    let id = reg.resolve(Some("ff:ee:dd:cc"), BODY_ID, ClientRole::Main).unwrap();

    assert_eq!(id.client_id, ENTRY_ID);
    assert_eq!(id.role, ClientRole::Follower);
}

#[test]
fn lookup_normalises_header_value() {
    let reg = CertRegistry::new(&make_config(AuthMode::Mtls, vec![main_entry()]));
    let raw = MAIN_FP.strip_prefix("sha256:").unwrap().to_uppercase();
    let id = reg.resolve(Some(&raw), BODY_ID, ClientRole::Main).unwrap();
    assert_eq!(id.client_id, ENTRY_ID);
}

#[test]
fn unknown_certificate_names_the_normalised_fingerprint_and_statuses_follow() {
    let reg = CertRegistry::new(&make_config(AuthMode::Mtls, vec![main_entry()]));
    let err = reg.resolve(Some("DE:AD"), BODY_ID, ClientRole::Main).unwrap_err();
    assert_eq!(err, AuthError::UnknownCertificate("dead".to_string()));
    assert_eq!(err.status_code(), 401);
    assert_eq!(AuthError::MainRequiresCert.status_code(), 403);
    assert_eq!(AuthError::CertificateRequired.status_code(), 401);
    assert_eq!(reg.resolve_header_only(Some(MAIN_FP)), Some(ENTRY_ID));
    assert_eq!(reg.resolve_header_only(Some("de:ad")), None);
    assert_eq!(reg.resolve_header_only(None), None);
    assert_eq!(reg.mode(), AuthMode::Mtls);
    assert_eq!(reg.cert_header(), DEFAULT_CERT_HEADER);
}

#[test]
fn later_client_with_same_fingerprint_wins() {
    let mut second = main_entry();
    second.client_id = 7;
    second.fingerprint = "aabbccddeeff00112233445566778899AABBCCDDEEFF00112233445566778899".to_string();
    let reg = CertRegistry::new(&make_config(AuthMode::Mtls, vec![main_entry(), second]));
    assert_eq!(reg.resolve_header_only(Some(MAIN_FP)), Some(7));
}

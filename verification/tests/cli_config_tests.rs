use std::collections::hash_map::RandomState;
use std::hash::{BuildHasher, Hasher};

use remerge::auth::{AuthError, AuthMethod, ClientRole};
use remerge::cli_config::{needs_rewrite, role_name, CliConfig, CONFIG_PATH, DEFAULT_SERVER};
use remerge::registry::RegistryError;

fn fresh_id() -> u128 {
    let mut h = RandomState::new().build_hasher();
    h.write_u8(1);
    (h.finish() as u128) << 64 | 1
}

#[test]
fn default_config_has_valid_client_id() {
    let config = CliConfig::with_client_id(fresh_id());
    assert_ne!(config.client_id, 0);
    assert_eq!(config.server, "http://localhost:7654");
    assert_eq!(config.role, ClientRole::Main);
    assert_eq!(DEFAULT_SERVER, "http://localhost:7654");
    assert_eq!(CONFIG_PATH, "/etc/remerge.conf");
}

#[test]
fn config_file_text_lists_the_settings() {
    let config = CliConfig {
        server: "http://remerge.lan:7654".to_string(),
        client_id: 0x550e8400_e29b_41d4_a716_446655440000,
        role: ClientRole::Follower,
    };
    let text = config.file_text();
    assert!(text.starts_with("# remerge CLI configuration\n#\n"));
    assert!(text.ends_with(
        "\nserver = \"http://remerge.lan:7654\"\nclient_id = \"550e8400-e29b-41d4-a716-446655440000\"\nrole = \"follower\"\n"
    ));
    assert_eq!(role_name(ClientRole::Main), "main");
}

#[test]
fn missing_or_nil_client_id_is_written_back() {
    assert!(needs_rewrite("server = \"http://localhost:7654\"\n", 5));
    assert!(needs_rewrite("client_id = \"00000000-0000-0000-0000-000000000000\"", 0));
    assert!(!needs_rewrite("client_id = \"550e8400-e29b-41d4-a716-446655440000\"", 7));
}

#[test]
fn error_and_method_messages() {
    assert_eq!(AuthError::CertificateRequired.message(), "client certificate required (mTLS mode)");
    assert_eq!(
        AuthError::MainRequiresCert.message(),
        "main clients must authenticate via mTLS (mixed mode)"
    );
    assert_eq!(
        AuthError::UnknownCertificate("ab:cd".to_string()).message(),
        "unknown client certificate: ab:cd"
    );
    assert_eq!(AuthMethod::SelfDeclared.describe(), "self-declared");
    let labelled = AuthMethod::Certificate {
        fingerprint: "aabbccddeeff00112233".to_string(),
        label: Some("build-01".to_string()),
    };
    assert_eq!(labelled.describe(), "certificate (build-01)");
    let bare = AuthMethod::Certificate { fingerprint: "aabbccddeeff00112233".to_string(), label: None };
    assert_eq!(bare.describe(), "certificate (aabbccddeeff\u{2026})");
    let short = AuthMethod::Certificate { fingerprint: "abc".to_string(), label: None };
    assert_eq!(short.describe(), "certificate (abc\u{2026})");
    assert_eq!(
        RegistryError::ActiveWorkorder(0x550e8400_e29b_41d4_a716_446655440000).message(),
        "workorder 550e8400-e29b-41d4-a716-446655440000 is already active for this client ID"
    );
    assert_eq!(
        RegistryError::NoMainClient.message(),
        "no main client has registered for this client ID yet"
    );
    assert_eq!(
        RegistryError::ConfigMismatch.message(),
        "follower config differs from main client \u{2014} followers cannot change config"
    );
}

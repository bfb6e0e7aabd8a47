use remerge::auth::ClientRole;
use remerge::registry::{ClientRegistry, ClientState, RegistryError};

const CLIENT: u128 = 0x6f1d_2c3b_4a59_4e68_8776_a5b4_c3d2_e1f0;

fn dummy_config() -> Vec<u8> {
    br#"{"make_conf":{"use_flags":[]},"profile":"default/linux/amd64/23.0"}"#.to_vec()
}

fn config_with_flag(flag: &str) -> Vec<u8> {
    format!(
        r#"{{"make_conf":{{"use_flags":["{flag}"]}},"profile":"default/linux/amd64/23.0"}}"#
    )
    .into_bytes()
}

fn dummy_system() -> Vec<u8> {
    br#"{"arch":"amd64","chost":"x86_64-pc-linux-gnu","gcc_version":"13.2.0"}"#.to_vec()
}

#[test]
fn new_client_returns_full_diff() {
    let mut registry = ClientRegistry::new();
    let diff = registry
        .update(CLIENT, ClientRole::Main, &dummy_config(), &dummy_system(), 1_000)
        .unwrap();
    assert!(diff.portage_changed);
    assert!(diff.system_changed);
}

#[test]
fn same_config_returns_empty_diff() {
    let mut registry = ClientRegistry::new();
    let config = dummy_config();
    let system = dummy_system();
    let _ = registry.update(CLIENT, ClientRole::Main, &config, &system, 1_000).unwrap();
    let diff = registry.update(CLIENT, ClientRole::Main, &config, &system, 2_000).unwrap();
    assert!(diff.is_empty());
}

#[test]
fn changed_use_flags_detected() {
    let mut registry = ClientRegistry::new();
    let system = dummy_system();
    let _ = registry.update(CLIENT, ClientRole::Main, &dummy_config(), &system, 1_000).unwrap();
    let diff = registry
        .update(CLIENT, ClientRole::Main, &config_with_flag("wayland"), &system, 2_000)
        .unwrap();
    assert!(diff.portage_changed);
    assert!(!diff.system_changed);
}

#[test]
fn active_workorder_prevents_new_submission() {
    let mut registry = ClientRegistry::new();
    let config = dummy_config();
    let system = dummy_system();
    let _ = registry.update(CLIENT, ClientRole::Main, &config, &system, 1_000).unwrap();

    let wo_id: u128 = 0x1111_2222_3333_4444_5555_6666_7777_8888;
    registry.set_active_workorder(CLIENT, wo_id);

    let result = registry.update(CLIENT, ClientRole::Main, &config, &system, 2_000);
    assert!(matches!(result, Err(RegistryError::ActiveWorkorder(_))));

    registry.clear_active_workorder(CLIENT);
    let diff = registry.update(CLIENT, ClientRole::Main, &config, &system, 3_000).unwrap();
    assert!(diff.is_empty());
}

#[test]
fn follower_reuses_main_config() {
    let mut registry = ClientRegistry::new();
    let config = dummy_config();
    let system = dummy_system();
    let _ = registry.update(CLIENT, ClientRole::Main, &config, &system, 1_000).unwrap();
    let diff = registry.update(CLIENT, ClientRole::Follower, &config, &system, 2_000).unwrap();
    assert!(diff.is_empty());
}

#[test]
fn follower_cannot_change_config() {
    let mut registry = ClientRegistry::new();
    let system = dummy_system();
    let _ = registry.update(CLIENT, ClientRole::Main, &dummy_config(), &system, 1_000).unwrap();
    let result =
        registry.update(CLIENT, ClientRole::Follower, &config_with_flag("systemd"), &system, 2_000);
    assert!(matches!(result, Err(RegistryError::ConfigMismatch)));
}

#[test]
fn follower_without_main_rejected() {
    let mut registry = ClientRegistry::new();
    let result =
        registry.update(CLIENT, ClientRole::Follower, &dummy_config(), &dummy_system(), 1_000);
    assert!(matches!(result, Err(RegistryError::NoMainClient)));
}

#[test]
fn registry_stores_hex_sha256_of_the_json() {
    let mut registry = ClientRegistry::new();
    let _ = registry.update(CLIENT, ClientRole::Main, b"abc", b"", 42).unwrap();
    let state = registry.get(CLIENT).unwrap();
    assert_eq!(
        state.config_hash,
        "ba7816bf8f01cfea414140de5dae2223b00361a396177a9cb410ff61f20015ad"
    );
    assert_eq!(
        state.system_hash,
        "e3b0c44298fc1c149afbf4c8996fb92427ae41e4649b934ca495991b7852b855"
    );
    assert_eq!(state.last_seen_millis, 42);
    assert_eq!(state.active_workorder, None);
}

#[test]
fn follower_refreshes_last_seen_only() {
    let mut registry = ClientRegistry::new();
    let config = dummy_config();
    let system = dummy_system();
    let _ = registry.update(CLIENT, ClientRole::Main, &config, &system, 1_000).unwrap();
    let before = registry.get(CLIENT).unwrap();
    let _ = registry.update(CLIENT, ClientRole::Follower, &config, &system, 5_000).unwrap();
    let after = registry.get(CLIENT).unwrap();
    assert_eq!(after.config_hash, before.config_hash);
    assert_eq!(after.system_hash, before.system_hash);
    assert_eq!(after.last_seen_millis, 5_000);
}

#[test]
fn refused_follower_leaves_registry_unchanged() {
    let mut registry = ClientRegistry::new();
    let _ = registry
        .update(CLIENT, ClientRole::Follower, &dummy_config(), &dummy_system(), 1_000)
        .unwrap_err();
    assert!(registry.get(CLIENT).is_none());
    assert!(registry.list_all().is_empty());
}

#[test]
fn persisted_clients_are_listed_and_found() {
    let other: u128 = 7;
    let clients = vec![
        ClientState {
            client_id: CLIENT,
            config_hash: "aa".to_string(),
            system_hash: "bb".to_string(),
            last_seen_millis: 10,
            active_workorder: Some(3),
        },
        ClientState {
            client_id: other,
            config_hash: "cc".to_string(),
            system_hash: "dd".to_string(),
            last_seen_millis: 20,
            active_workorder: None,
        },
    ];
    let registry = ClientRegistry::from_persisted(clients);
    assert_eq!(registry.list_all().len(), 2);
    assert_eq!(registry.get(other).unwrap().config_hash, "cc");
    assert_eq!(registry.get(CLIENT).unwrap().active_workorder, Some(3));
}

use remerge::signing::{
    check_gpg_key_text, check_secret_key_listing, export_public_key, parse_fingerprint_listing,
    validate_signing_config, SigningConfig, SigningError, SigningKeyLocation,
};

const FPR_LISTING: &str = "tru::1:1700000000:0:3:1:5\n\
pub:u:255:22:0123456789ABCDEF:1700000000:::u:::scESC:::::ed25519:::0:\n\
fpr:::::::::D4F1C2B3A4958677E6F5D4C3B2A1908877665544:\n\
uid:u::::1700000000::HASH::Build Host <build@example.org>::::::::::0:\n";

const ARMORED: &str =
    "-----BEGIN PGP PUBLIC KEY BLOCK-----\n\nmDMEZ...\n-----END PGP PUBLIC KEY BLOCK-----\n";

#[test]
fn signing_enabled_needs_key_and_home() {
    let both = SigningConfig {
        gpg_key: Some("ABC".to_string()),
        gpg_home: Some("/var/lib/remerge/gnupg".to_string()),
    };
    assert!(both.enabled());
    let key_only = SigningConfig { gpg_key: Some("ABC".to_string()), gpg_home: None };
    assert!(!key_only.enabled());
    assert!(!SigningConfig { gpg_key: None, gpg_home: None }.enabled());
}

#[test]
fn signing_config_is_off_or_complete() {
    assert_eq!(
        validate_signing_config(&SigningConfig { gpg_key: None, gpg_home: None }),
        Ok(None)
    );
    assert_eq!(
        validate_signing_config(&SigningConfig {
            gpg_key: None,
            gpg_home: Some("/h".to_string())
        }),
        Err(SigningError::Incomplete)
    );
    assert_eq!(
        validate_signing_config(&SigningConfig {
            gpg_key: Some("K".to_string()),
            gpg_home: Some("/h".to_string())
        }),
        Ok(Some(SigningKeyLocation { gpg_key: "K".to_string(), gpg_home: "/h".to_string() }))
    );
}

#[test]
fn blank_key_is_refused() {
    assert_eq!(check_gpg_key_text("  \t"), Err(SigningError::EmptyKey));
    assert_eq!(check_gpg_key_text(""), Err(SigningError::EmptyKey));
    assert_eq!(check_gpg_key_text(" ABC "), Ok(()));
}

#[test]
fn secret_key_listing_needs_sec_or_ssb() {
    assert_eq!(check_secret_key_listing("sec:u:255:22:ABC:1:::u:::scESC:\n"), Ok(()));
    assert_eq!(check_secret_key_listing("tru::1\nssb:u:255:18:DEF:1:::::e:\n"), Ok(()));
    assert_eq!(check_secret_key_listing("tru::1\npub:u:255\n"), Err(SigningError::NoSecretKey));
    assert_eq!(check_secret_key_listing(""), Err(SigningError::NoSecretKey));
}

#[test]
fn fingerprint_is_the_tenth_field_of_the_first_fpr_line() {
    assert_eq!(
        parse_fingerprint_listing(FPR_LISTING),
        Ok("D4F1C2B3A4958677E6F5D4C3B2A1908877665544".to_string())
    );
    assert_eq!(
        parse_fingerprint_listing("pub:u:255\n"),
        Err(SigningError::FingerprintNotFound)
    );
    assert_eq!(
        parse_fingerprint_listing("fpr:::::::::   :\nfpr:::::::::AAAA:\n"),
        Err(SigningError::FingerprintNotFound)
    );
    assert_eq!(parse_fingerprint_listing("fpr:::\n"), Err(SigningError::FingerprintNotFound));
}

#[test]
fn exported_key_must_be_armored() {
    let key = export_public_key("0123456789ABCDEF", FPR_LISTING, ARMORED.to_string()).unwrap();
    assert_eq!(key.configured_key, "0123456789ABCDEF");
    assert_eq!(key.fingerprint, "D4F1C2B3A4958677E6F5D4C3B2A1908877665544");
    assert_eq!(key.armored_key, ARMORED);
    assert_eq!(
        export_public_key("K", FPR_LISTING, "not a key".to_string()).map(|_| ()),
        Err(SigningError::MalformedPublicKey)
    );
    assert_eq!(
        export_public_key("K", "", ARMORED.to_string()).map(|_| ()),
        Err(SigningError::FingerprintNotFound)
    );
}

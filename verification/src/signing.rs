//! Binary package signing: whether signing is configured, and what the
//! server makes of the answers of `gpg` when it checks and exports the
//! signing key.
use vstd::prelude::*;

use crate::text::{
    chars_of, contains_chars, contains_seq, has_prefix, lines, lines_of, split_chars, split_on,
    starts_with, string_of, trim, trim_chars, vv,
};

verus! {

/// Binary package OpenPGP signing configuration.
#[derive(Debug, Clone)]
pub struct SigningConfig {
    /// GPG key fingerprint for signing binary packages.
    pub gpg_key: Option<String>,
    /// GPG home directory containing the signing keyring.
    pub gpg_home: Option<String>,
}

impl SigningConfig {
    /// Returns `true` if binary package signing is fully configured.
    pub fn enabled(&self) -> (r: bool)
        ensures
            r == (self.gpg_key.is_some() && self.gpg_home.is_some()),
    {
        self.gpg_key.is_some() && self.gpg_home.is_some()
    }
}

/// Optional TLS configuration for serving HTTPS directly.
#[derive(Debug, Clone)]
pub struct TlsConfig {
    /// Path to the PEM-encoded certificate chain.
    pub cert: String,
    /// Path to the PEM-encoded private key.
    pub key: String,
}

/// The public half of the signing key, as the server publishes it.
#[derive(Debug, Clone)]
pub struct ExportedSigningKey {
    pub configured_key: String,
    pub fingerprint: String,
    pub armored_key: String,
}

/// The key and keyring that a complete signing configuration names.
#[derive(Debug, Clone, PartialEq, Eq)]
pub struct SigningKeyLocation {
    pub gpg_key: String,
    pub gpg_home: String,
}

/// Why the signing configuration or key was refused.
#[derive(Debug, Clone, PartialEq, Eq)]
pub enum SigningError {
    /// Only one of `gpg_key` and `gpg_home` is set.
    Incomplete,
    /// The configured key is blank.
    EmptyKey,
    /// `gpg` lists no secret key (`sec` or `ssb`) for the configured key.
    NoSecretKey,
    /// The fingerprint listing holds no usable `fpr` record.
    FingerprintNotFound,
    /// The exported key is not an armored public key block.
    MalformedPublicKey,
}

/// What the server was doing when it met a signing error.
#[derive(Debug, Clone, Copy, PartialEq, Eq)]
pub enum SigningPurpose {
    /// Checking the configuration before the server starts.
    Startup,
    /// Exporting the public key.
    Export,
}

/// The text the server reports for a signing error, for the errors whose
/// text does not quote the key or keyring. The others quote them in Rust's
/// debug notation and are written by the caller.
pub open spec fn signing_error_text(e: SigningError, purpose: SigningPurpose) -> Option<Seq<char>> {
    match e {
        SigningError::Incomplete => Some(
            match purpose {
                SigningPurpose::Startup => "Binary package signing must set both `gpg_key` and `gpg_home` before starting remerge-server."@,
                SigningPurpose::Export => "Binary package signing must set both `gpg_key` and `gpg_home` before exporting the public key."@,
            },
        ),
        SigningError::EmptyKey => Some(
            "Configured signing key is empty. Set `gpg_key` to the signing key fingerprint or key ID."@,
        ),
        _ => None,
    }
}

impl SigningError {
    /// The error's text, where it does not quote the key or keyring.
    pub fn message(&self, purpose: SigningPurpose) -> (r: Option<String>)
        ensures
            match signing_error_text(*self, purpose) {
                Some(t) => r matches Some(m) && m@ == t,
                None => r is None,
            },
    {
        match self {
            SigningError::Incomplete => Some(
                match purpose {
                    SigningPurpose::Startup => "Binary package signing must set both `gpg_key` and `gpg_home` before starting remerge-server.".to_string(),
                    SigningPurpose::Export => "Binary package signing must set both `gpg_key` and `gpg_home` before exporting the public key.".to_string(),
                },
            ),
            SigningError::EmptyKey => Some(
                "Configured signing key is empty. Set `gpg_key` to the signing key fingerprint or key ID.".to_string(),
            ),
            _ => None,
        }
    }
}

/// Checks that signing is either off or fully configured, and returns the
/// key and keyring to check with `gpg` when it is on.
pub fn validate_signing_config(signing: &SigningConfig) -> (r: Result<
    Option<SigningKeyLocation>,
    SigningError,
>)
    ensures
        match (signing.gpg_key, signing.gpg_home) {
            (None, None) => r == Ok::<Option<SigningKeyLocation>, SigningError>(None),
            (Some(k), Some(h)) => r matches Ok(Some(l)) && l.gpg_key == k && l.gpg_home == h,
            _ => r == Err::<Option<SigningKeyLocation>, SigningError>(SigningError::Incomplete),
        },
{
    match (&signing.gpg_key, &signing.gpg_home) {
        (None, None) => Ok(None),
        (Some(k), Some(h)) => Ok(Some(SigningKeyLocation { gpg_key: k.clone(), gpg_home: h.clone() })),
        _ => Err(SigningError::Incomplete),
    }
}

/// A configured key must not be blank.
pub fn check_gpg_key_text(gpg_key: &str) -> (r: Result<(), SigningError>)
    ensures
        r.is_ok() == (trim(gpg_key@).len() > 0),
        r.is_err() ==> r == Err::<(), SigningError>(SigningError::EmptyKey),
{
    if trim_chars(chars_of(gpg_key).as_slice()).len() == 0 {
        Err(SigningError::EmptyKey)
    } else {
        Ok(())
    }
}

/// Whether a `gpg --list-secret-keys --with-colons` listing has a line for
/// a secret key or subkey.
pub open spec fn lists_secret_key(out: Seq<char>) -> bool {
    exists|i: int|
        0 <= i < lines(out).len() && (starts_with(#[trigger] lines(out)[i], "sec:"@) || starts_with(
            lines(out)[i],
            "ssb:"@,
        ))
}

/// Checks the secret key listing that `gpg` printed for the configured key.
pub fn check_secret_key_listing(stdout: &str) -> (r: Result<(), SigningError>)
    ensures
        r.is_ok() == lists_secret_key(stdout@),
        r.is_err() ==> r == Err::<(), SigningError>(SigningError::NoSecretKey),
{
    let ls = lines_of(chars_of(stdout).as_slice());
    let sec = chars_of("sec:");
    let ssb = chars_of("ssb:");
    let mut i: usize = 0;
    while i < ls.len()
        invariant
            i <= ls.len(),
            vv(ls@) == lines(stdout@),
            sec@ == "sec:"@,
            ssb@ == "ssb:"@,
            forall|j: int|
                0 <= j < i ==> !(starts_with(#[trigger] lines(stdout@)[j], "sec:"@) || starts_with(
                    lines(stdout@)[j],
                    "ssb:"@,
                )),
        decreases ls.len() - i,
    {
        assert(vv(ls@)[i as int] == ls@[i as int]@);
        if has_prefix(ls[i].as_slice(), sec.as_slice()) || has_prefix(ls[i].as_slice(), ssb.as_slice()) {
            return Ok(());
        }
        i += 1;
    }
    Err(SigningError::NoSecretKey)
}

/// Position of the first line of `ls` that starts with `fpr:`, or the
/// number of lines.
pub open spec fn first_fpr_line(ls: Seq<Seq<char>>) -> int
    decreases ls.len(),
{
    if ls.len() == 0 {
        0
    } else if starts_with(ls[0], "fpr:"@) {
        0
    } else {
        1 + first_fpr_line(ls.drop_first())
    }
}

/// The fingerprint in a `gpg --with-colons --fingerprint` listing: the
/// tenth field of the first `fpr` line, unless there is none or it is
/// blank.
pub open spec fn listed_fingerprint(out: Seq<char>) -> Option<Seq<char>> {
    let ls = lines(out);
    let k = first_fpr_line(ls);
    if k < ls.len() && split_on(ls[k], ':').len() > 9 && trim(split_on(ls[k], ':')[9]).len() > 0 {
        Some(split_on(ls[k], ':')[9])
    } else {
        None
    }
}

proof fn lemma_first_fpr_line(ls: Seq<Seq<char>>, i: int)
    requires
        0 <= i <= ls.len(),
        forall|j: int| 0 <= j < i ==> !starts_with(#[trigger] ls[j], "fpr:"@),
    ensures
        i < ls.len() && starts_with(ls[i], "fpr:"@) ==> first_fpr_line(ls) == i,
        i == ls.len() ==> first_fpr_line(ls) == ls.len(),
    decreases i,
{
    if i > 0 {
        assert forall|j: int| 0 <= j < i - 1 implies !starts_with(
            #[trigger] ls.drop_first()[j],
            "fpr:"@,
        ) by {
            assert(ls.drop_first()[j] == ls[j + 1]);
        }
        lemma_first_fpr_line(ls.drop_first(), i - 1);
    }
}

/// Reads the fingerprint from the listing that `gpg` printed.
pub fn parse_fingerprint_listing(stdout: &str) -> (r: Result<String, SigningError>)
    ensures
        match listed_fingerprint(stdout@) {
            Some(f) => r matches Ok(s) && s@ == f,
            None => r == Err::<String, SigningError>(SigningError::FingerprintNotFound),
        },
{
    let ls = lines_of(chars_of(stdout).as_slice());
    let fpr = chars_of("fpr:");
    let ghost gl = lines(stdout@);
    let mut i: usize = 0;
    while i < ls.len()
        invariant
            i <= ls.len(),
            vv(ls@) == gl,
            gl == lines(stdout@),
            fpr@ == "fpr:"@,
            forall|j: int| 0 <= j < i ==> !starts_with(#[trigger] gl[j], "fpr:"@),
        decreases ls.len() - i,
    {
        assert(gl[i as int] == ls@[i as int]@);
        if has_prefix(ls[i].as_slice(), fpr.as_slice()) {
            proof {
                lemma_first_fpr_line(gl, i as int);
            }
            let fields = split_chars(ls[i].as_slice(), ':');
            if fields.len() > 9 {
                assert(vv(fields@)[9] == fields@[9]@);
                if trim_chars(fields[9].as_slice()).len() > 0 {
                    return Ok(string_of(fields[9].as_slice()));
                }
            }
            return Err(SigningError::FingerprintNotFound);
        }
        i += 1;
    }
    proof {
        lemma_first_fpr_line(gl, i as int);
    }
    Err(SigningError::FingerprintNotFound)
}

/// Assembles the published key from the configured key and the answers of
/// `gpg`: the fingerprint listing and the armored export.
pub fn export_public_key(gpg_key: &str, fingerprint_listing: &str, armored_key: String) -> (r:
    Result<ExportedSigningKey, SigningError>)
    ensures
        match listed_fingerprint(fingerprint_listing@) {
            None => r == Err::<ExportedSigningKey, SigningError>(
                SigningError::FingerprintNotFound,
            ),
            Some(f) => if contains_seq(armored_key@, "BEGIN PGP PUBLIC KEY BLOCK"@) {
                r matches Ok(k) && k.configured_key@ == gpg_key@ && k.fingerprint@ == f
                    && k.armored_key == armored_key
            } else {
                r == Err::<ExportedSigningKey, SigningError>(SigningError::MalformedPublicKey)
            },
        },
{
    let fingerprint = parse_fingerprint_listing(fingerprint_listing)?;
    if !contains_chars(
        chars_of(armored_key.as_str()).as_slice(),
        chars_of("BEGIN PGP PUBLIC KEY BLOCK").as_slice(),
    ) {
        return Err(SigningError::MalformedPublicKey);
    }
    Ok(
        ExportedSigningKey {
            configured_key: string_of(chars_of(gpg_key).as_slice()),
            fingerprint,
            armored_key,
        },
    )
}

/// A fingerprint read from a `gpg` listing is never blank.
pub proof fn law_listed_fingerprint_is_not_blank(out: Seq<char>)
    ensures
        listed_fingerprint(out) matches Some(f) ==> trim(f).len() > 0,
{
}

} // verus!

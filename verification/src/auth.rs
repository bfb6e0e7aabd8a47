//! Client authentication: the effective client identity of a request from
//! the certificate fingerprint that the TLS-terminating proxy forwards and
//! the identity that the request body declares.
use vstd::prelude::*;
use vstd::string::StringSliceAdditionalSpecFns;
use vstd::utf8::{decode_utf8, encode_utf8, is_char_boundary};

use crate::strmap::StrMap;
use crate::text::{
    chars_of, has_prefix, remove_all, remove_char, starts_with, string_of, sub_chars, trim,
    trim_chars,
};

verus! {

/// Header that carries the client certificate fingerprint by default.
pub const DEFAULT_CERT_HEADER: &'static str = "X-Client-Cert-Fingerprint";

/// How the server authenticates clients.
#[derive(Debug, Clone, Copy, PartialEq, Eq, Structural)]
pub enum AuthMode {
    /// No authentication: the body's identity is taken as declared.
    NoAuth,
    /// Every client must present a registered certificate.
    Mtls,
    /// Mains must present a certificate; followers may declare themselves.
    Mixed,
}

/// The role of a client.
#[derive(Debug, Clone, Copy, PartialEq, Eq, Structural)]
pub enum ClientRole {
    Main,
    Follower,
}

/// A registered client certificate.
#[derive(Debug)]
pub struct CertEntry {
    /// SHA-256 fingerprint, in any of the accepted spellings.
    pub fingerprint: String,
    /// Client ID assigned to holders of the certificate.
    pub client_id: u128,
    /// Role assigned to holders of the certificate.
    pub role: ClientRole,
    /// Optional human-readable label.
    pub label: Option<String>,
}

/// Authentication section of the server configuration.
pub struct AuthConfig {
    pub mode: AuthMode,
    /// Header that carries the client certificate fingerprint.
    pub cert_header: String,
    /// Registered client certificates.
    pub clients: Vec<CertEntry>,
}

/// How a client was authenticated.
#[derive(Debug)]
pub enum AuthMethod {
    /// The client declared its identity itself.
    SelfDeclared,
    /// The client presented a registered certificate.
    Certificate { fingerprint: String, label: Option<String> },
}

/// The effective identity of a request.
#[derive(Debug)]
pub struct ResolvedIdentity {
    pub client_id: u128,
    pub role: ClientRole,
    pub method: AuthMethod,
}

/// Why a request was not authenticated.
#[derive(Debug, Clone, PartialEq, Eq)]
pub enum AuthError {
    /// mTLS is required but no certificate was presented.
    CertificateRequired,
    /// In mixed mode, main clients must authenticate with a certificate.
    MainRequiresCert,
    /// A certificate was presented but is not registered.
    UnknownCertificate(String),
}

/// How an authentication is written in the logs.
pub open spec fn method_text(m: AuthMethod) -> Seq<char> {
    match m {
        AuthMethod::SelfDeclared => "self-declared"@,
        AuthMethod::Certificate { fingerprint, label } => match label {
            Some(l) => "certificate ("@ + l@ + ")"@,
            None => "certificate ("@ + (if encode_utf8(fingerprint@).len() <= 12 {
                fingerprint@
            } else {
                decode_utf8(encode_utf8(fingerprint@).take(12))
            }) + "\u{2026})"@,
        },
    }
}

impl AuthMethod {
    /// How the authentication is written in the logs: the certificate's
    /// label, else the first 12 bytes of its fingerprint.
    pub fn describe(&self) -> (r: String)
        requires
            self matches AuthMethod::Certificate { fingerprint, label: None } ==> (encode_utf8(
                fingerprint@,
            ).len() <= usize::MAX && (encode_utf8(fingerprint@).len() > 12 ==> is_char_boundary(
                encode_utf8(fingerprint@),
                12,
            ))),
        ensures
            r@ == method_text(*self),
    {
        match self {
            AuthMethod::SelfDeclared => "self-declared".to_string(),
            AuthMethod::Certificate { fingerprint, label } => {
                let mut out = chars_of("certificate (");
                match label {
                    Some(l) => {
                        crate::text::append_chars(&mut out, chars_of(l.as_str()).as_slice());
                        crate::text::append_chars(&mut out, chars_of(")").as_slice());
                        assert(out@ =~= "certificate ("@ + l@ + ")"@);
                    },
                    None => {
                        let f = fingerprint.as_str();
                        assert(f.spec_bytes() == encode_utf8(f@));
                        let ghost start = out@;
                        assert(start == "certificate ("@);
                        assert(f@ == fingerprint@);
                        assert(f.len() == encode_utf8(f@).len());
                        if f.len() <= 12 {
                            crate::text::append_chars(&mut out, chars_of(f).as_slice());
                            assert(out@ =~= start + f@);
                        } else {
                            let (head, _) = f.split_at(12);
                            proof {
                                vstd::utf8::encode_utf8_decode_utf8(head@);
                                assert(head.spec_bytes() =~= encode_utf8(f@).take(12));
                            }
                            crate::text::append_chars(&mut out, chars_of(head).as_slice());
                            assert(out@ =~= start + decode_utf8(encode_utf8(f@).take(12)));
                        }
                        crate::text::append_chars(&mut out, chars_of("\u{2026})").as_slice());
                        assert(out@ =~= "certificate ("@ + (if encode_utf8(fingerprint@).len() <= 12 {
                            fingerprint@
                        } else {
                            decode_utf8(encode_utf8(fingerprint@).take(12))
                        }) + "\u{2026})"@);
                    },
                }
                string_of(out.as_slice())
            },
        }
    }
}

/// The message of an authentication error.
pub open spec fn auth_error_text(e: AuthError) -> Seq<char> {
    match e {
        AuthError::CertificateRequired => "client certificate required (mTLS mode)"@,
        AuthError::MainRequiresCert => "main clients must authenticate via mTLS (mixed mode)"@,
        AuthError::UnknownCertificate(fp) => "unknown client certificate: "@ + fp@,
    }
}

impl AuthError {
    /// The message sent with the error.
    pub fn message(&self) -> (r: String)
        ensures
            r@ == auth_error_text(*self),
    {
        match self {
            AuthError::CertificateRequired => "client certificate required (mTLS mode)".to_string(),
            AuthError::MainRequiresCert => "main clients must authenticate via mTLS (mixed mode)".to_string(),
            AuthError::UnknownCertificate(fp) => {
                let mut out = chars_of("unknown client certificate: ");
                crate::text::append_chars(&mut out, chars_of(fp.as_str()).as_slice());
                string_of(out.as_slice())
            },
        }
    }

    /// The HTTP status that answers the error: 401 for a missing or
    /// unknown certificate, 403 for a main without one.
    pub fn status_code(&self) -> (r: u16)
        ensures
            r == (match self {
                AuthError::MainRequiresCert => 403u16,
                _ => 401u16,
            }),
    {
        match self {
            AuthError::CertificateRequired | AuthError::UnknownCertificate(_) => 401,
            AuthError::MainRequiresCert => 403,
        }
    }
}

/// What `str::to_lowercase` returns for a text.
pub uninterp spec fn lowercase_of(s: Seq<char>) -> Seq<char>;

/// Every character of the text is ASCII.
pub open spec fn all_ascii(s: Seq<char>) -> bool {
    forall|i: int| 0 <= i < s.len() ==> ((#[trigger] s[i]) as u32) < 128
}

/// Lowercases a text with `str::to_lowercase`.
///
/// Trusted: the result is the value that `lowercase_of` names for the text,
/// and on ASCII text it is the text with each ASCII capital lowered, one
/// character for one, as std documents for ASCII; the Unicode case mapping
/// of other characters is not stated here.
#[verifier::external_body]
fn to_lowercase(s: &str) -> (r: String)
    ensures
        r@ == lowercase_of(s@),
        all_ascii(s@) ==> r@ == crate::text::ascii_lower_seq(s@),
{
    s.to_lowercase()
}

/// A fingerprint as lowercase hex without separators: trimmed, lowercased,
/// an optional `sha256:` prefix dropped, and every `:` and space removed.
pub open spec fn normalised(fp: Seq<char>) -> Seq<char> {
    let lower = lowercase_of(trim(fp));
    let rest = if starts_with(lower, "sha256:"@) {
        lower.skip(7)
    } else {
        lower
    };
    remove_char(remove_char(rest, ':'), ' ')
}

/// Normalise a certificate fingerprint to lowercase hex without separators
/// (`sha256:AB:CD`, `AB:CD`, `ab cd` and `abcd` all become `abcd`).
pub fn normalise_fingerprint(fp: &str) -> (r: String)
    ensures
        r@ == normalised(fp@),
{
    let t = string_of(trim_chars(chars_of(fp).as_slice()).as_slice());
    let lower = chars_of(to_lowercase(t.as_str()).as_str());
    let prefix = chars_of("sha256:");
    proof {
        reveal_strlit("sha256:");
    }
    let rest = if has_prefix(lower.as_slice(), prefix.as_slice()) {
        sub_chars(lower.as_slice(), 7, lower.len())
    } else {
        sub_chars(lower.as_slice(), 0, lower.len())
    };
    assert(rest@ =~= (if starts_with(lower@, "sha256:"@) {
        lower@.skip(7)
    } else {
        lower@
    }));
    let no_colons = remove_all(rest.as_slice(), ':');
    let out = remove_all(no_colons.as_slice(), ' ');
    string_of(out.as_slice())
}

/// The fingerprint a request presents: the normalised header value, unless
/// the header is missing or normalises to nothing.
pub open spec fn presented(header: Option<Seq<char>>) -> Option<Seq<char>> {
    match header {
        Some(h) => if normalised(h).len() == 0 {
            None
        } else {
            Some(normalised(h))
        },
        None => None,
    }
}

/// Reads the certificate fingerprint from the header value, if usable.
pub fn extract_fingerprint(header_value: Option<&str>) -> (r: Option<String>)
    ensures
        match presented(match header_value {
            Some(h) => Some(h@),
            None => None,
        }) {
            Some(f) => r matches Some(s) && s@ == f,
            None => r.is_none(),
        },
{
    match header_value {
        None => None,
        Some(h) => {
            let n = normalise_fingerprint(h);
            if n.as_str().is_empty() {
                None
            } else {
                Some(n)
            }
        },
    }
}

/// The registered entry of a normalised fingerprint: the last client in
/// configuration order whose fingerprint normalises to it.
pub open spec fn entry_for(clients: Seq<CertEntry>, fp: Seq<char>) -> Option<CertEntry>
    decreases clients.len(),
{
    if clients.len() == 0 {
        None
    } else if normalised(clients.last().fingerprint@) == fp {
        Some(clients.last())
    } else {
        entry_for(clients.drop_last(), fp)
    }
}

fn copy_text(s: &String) -> (r: String)
    ensures
        r == *s,
{
    s.clone()
}

fn copy_label(l: &Option<String>) -> (r: Option<String>)
    ensures
        r == *l,
{
    match l {
        Some(s) => Some(copy_text(s)),
        None => None,
    }
}

fn copy_entry(e: &CertEntry) -> (r: CertEntry)
    ensures
        r == *e,
{
    CertEntry {
        fingerprint: copy_text(&e.fingerprint),
        client_id: e.client_id,
        role: e.role,
        label: copy_label(&e.label),
    }
}

/// The outcome of a request that presents the fingerprint `f`: the
/// registered identity, or `UnknownCertificate` naming `f`.
pub open spec fn certificate_outcome(
    entry: Option<CertEntry>,
    f: Seq<char>,
    r: Result<ResolvedIdentity, AuthError>,
) -> bool {
    match entry {
        Some(e) => r matches Ok(id) && id.client_id == e.client_id && id.role == e.role && (
        id.method matches AuthMethod::Certificate { fingerprint, label } && fingerprint@
            == normalised(e.fingerprint@) && label == e.label),
        None => r matches Err(AuthError::UnknownCertificate(s)) && s@ == f,
    }
}

pub open spec fn opt_view(h: Option<&str>) -> Option<Seq<char>> {
    match h {
        Some(s) => Some(s@),
        None => None,
    }
}

/// Lookup table of registered certificates, built once from the
/// configuration.
pub struct CertRegistry {
    mode: AuthMode,
    cert_header: String,
    entries: StrMap<CertEntry>,
}

impl CertRegistry {
    /// The configured authentication mode.
    pub closed spec fn auth_mode(&self) -> AuthMode {
        self.mode
    }

    /// The registered entry of a normalised fingerprint.
    pub closed spec fn entry(&self, fp: Seq<char>) -> Option<CertEntry> {
        self.entries.lookup(fp)
    }

    /// The header that carries fingerprints.
    pub closed spec fn header_name(&self) -> Seq<char> {
        self.cert_header@
    }

    pub closed spec fn wf(&self) -> bool {
        self.entries.wf()
    }

    /// Builds the table: every client under its normalised fingerprint, a
    /// later client replacing an earlier one with the same fingerprint.
    pub fn new(config: &AuthConfig) -> (r: Self)
        ensures
            r.wf(),
            r.auth_mode() == config.mode,
            r.header_name() == config.cert_header@,
            forall|fp: Seq<char>| #[trigger] r.entry(fp) == entry_for(config.clients@, fp),
    {
        let mut entries: StrMap<CertEntry> = StrMap::new();
        let mut i: usize = 0;
        while i < config.clients.len()
            invariant
                i <= config.clients.len(),
                entries.wf(),
                forall|fp: Seq<char>| #[trigger] entries.lookup(fp) == entry_for(
                    config.clients@.take(i as int),
                    fp,
                ),
            decreases config.clients.len() - i,
        {
            let e = &config.clients[i];
            let key = normalise_fingerprint(e.fingerprint.as_str());
            let ghost old_entries = entries;
            entries.insert(key, copy_entry(e));
            proof {
                let t = config.clients@.take(i + 1);
                assert(t.drop_last() =~= config.clients@.take(i as int));
                assert(t.last() == *e);
                assert forall|fp: Seq<char>| #[trigger] entries.lookup(fp) == entry_for(t, fp) by {
                    if fp == key@ {
                    } else {
                        assert(old_entries.lookup(fp) == entries.lookup(fp));
                    }
                }
            }
            i += 1;
        }
        assert(config.clients@.take(config.clients.len() as int) =~= config.clients@);
        CertRegistry { mode: config.mode, cert_header: copy_text(&config.cert_header), entries }
    }

    /// The configured authentication mode.
    pub fn mode(&self) -> (r: AuthMode)
        ensures
            r == self.auth_mode(),
    {
        self.mode
    }

    /// The header that carries fingerprints.
    pub fn cert_header(&self) -> (r: &str)
        ensures
            r@ == self.header_name(),
    {
        self.cert_header.as_str()
    }

    fn identity_for(&self, fp: String) -> (r: Result<ResolvedIdentity, AuthError>)
        requires
            self.wf(),
        ensures
            certificate_outcome(self.entry(fp@), fp@, r),
    {
        match self.entries.get(fp.as_str()) {
            Some(e) => Ok(
                ResolvedIdentity {
                    client_id: e.client_id,
                    role: e.role,
                    method: AuthMethod::Certificate {
                        fingerprint: normalise_fingerprint(e.fingerprint.as_str()),
                        label: copy_label(&e.label),
                    },
                },
            ),
            None => Err(AuthError::UnknownCertificate(fp)),
        }
    }

    /// The effective identity of a request, given the value of the
    /// certificate header (if the request carries one as text) and the
    /// identity the body declares:
    /// - no authentication: the body's identity;
    /// - mTLS: the registered identity of the certificate, which is required;
    /// - mixed: the certificate's identity when one is presented, else the
    ///   body's client as a follower; a main without a certificate is refused.
    pub fn resolve(&self, header_value: Option<&str>, body_client_id: u128, body_role: ClientRole) -> (r:
        Result<ResolvedIdentity, AuthError>)
        requires
            self.wf(),
        ensures
            self.auth_mode() == AuthMode::NoAuth ==> (r matches Ok(id) && id.client_id
                == body_client_id && id.role == body_role && id.method is SelfDeclared),
            self.auth_mode() != AuthMode::NoAuth ==> match presented(opt_view(header_value)) {
                Some(f) => certificate_outcome(self.entry(f), f, r),
                None => if self.auth_mode() == AuthMode::Mtls {
                    r == Err::<ResolvedIdentity, AuthError>(AuthError::CertificateRequired)
                } else if body_role == ClientRole::Main {
                    r == Err::<ResolvedIdentity, AuthError>(AuthError::MainRequiresCert)
                } else {
                    r matches Ok(id) && id.client_id == body_client_id && id.role
                        == ClientRole::Follower && id.method is SelfDeclared
                },
            },
    {
        match self.mode {
            AuthMode::NoAuth => Ok(
                ResolvedIdentity {
                    client_id: body_client_id,
                    role: body_role,
                    method: AuthMethod::SelfDeclared,
                },
            ),
            AuthMode::Mtls => match extract_fingerprint(header_value) {
                Some(fp) => self.identity_for(fp),
                None => Err(AuthError::CertificateRequired),
            },
            AuthMode::Mixed => match extract_fingerprint(header_value) {
                Some(fp) => self.identity_for(fp),
                None => {
                    if body_role == ClientRole::Main {
                        Err(AuthError::MainRequiresCert)
                    } else {
                        Ok(
                            ResolvedIdentity {
                                client_id: body_client_id,
                                role: ClientRole::Follower,
                                method: AuthMethod::SelfDeclared,
                            },
                        )
                    }
                },
            },
        }
    }

    /// The registered client of the presented certificate, for requests
    /// without a body.
    pub fn resolve_header_only(&self, header_value: Option<&str>) -> (r: Option<u128>)
        requires
            self.wf(),
        ensures
            r == (match presented(opt_view(header_value)) {
                Some(f) => match self.entry(f) {
                    Some(e) => Some(e.client_id),
                    None => None,
                },
                None => None,
            }),
    {
        let fp = extract_fingerprint(header_value)?;
        match self.entries.get(fp.as_str()) {
            Some(e) => Some(e.client_id),
            None => None,
        }
    }
}

} // verus!

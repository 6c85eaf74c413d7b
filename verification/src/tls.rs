//! TLS termination: reading certificates and choosing among them.
//!
//! Certificates and keys come in as PEM text and go through `rustls_pemfile`
//! to DER bytes; `rustls` makes server settings of them.

use std::sync::Arc;

use vstd::prelude::*;

use crate::config::{InlineCertificate, TlsConfig, TlsMode};
use crate::text;

verus! {

// ---------------------------------------------------------------------------
// Outside types
// ---------------------------------------------------------------------------

/// `rustls::Error`.
#[verifier::external_type_specification]
#[verifier::external_body]
pub struct ExRustlsError(rustls::Error);

/// `rustls::ServerConfig`.
#[verifier::external_type_specification]
#[verifier::external_body]
pub struct ExServerConfig(rustls::ServerConfig);

/// `rustls::crypto::CryptoProvider`.
#[verifier::external_type_specification]
#[verifier::external_body]
pub struct ExCryptoProvider(rustls::crypto::CryptoProvider);

/// `rustls::sign::CertifiedKey`.
#[verifier::external_type_specification]
#[verifier::external_body]
pub struct ExCertifiedKey(rustls::sign::CertifiedKey);

/// `rustls::server::ResolvesServerCertUsingSni`.
#[verifier::external_type_specification]
#[verifier::external_body]
pub struct ExSniResolver(rustls::server::ResolvesServerCertUsingSni);

// ---------------------------------------------------------------------------
// Errors
// ---------------------------------------------------------------------------

/// Why TLS cannot be set up.
#[derive(Debug)]
pub enum TlsSetupError {
    /// There are no certificates.
    NoCertificates,
    /// A certificate chain could not be read.
    CertParse(String),
    /// A private key could not be read.
    KeyParse(String),
    /// `rustls` refused the settings.
    Rustls(rustls::Error),
    /// A host name does not fit its certificate.
    SniAdd(String),
}

/// The text of an error of `rustls`.
pub uninterp spec fn error_text(e: rustls::Error) -> Seq<char>;

/// The `Display` of `rustls::Error` gives the text of the error. It depends on
/// the error alone; nothing more is claimed of it.
#[verifier::external_body]
fn rustls_error_text(e: &rustls::Error) -> (r: String)
    ensures
        r@ == error_text(*e),
{
    format!("{e}")
}

impl TlsSetupError {
    /// The error in words.
    pub fn message(&self) -> (r: String)
        ensures
            match self {
                TlsSetupError::NoCertificates => r@ == "no inline certificates provided"@,
                TlsSetupError::CertParse(m) => r@ == "certificate parse error: "@ + m@,
                TlsSetupError::KeyParse(m) => r@ == "private key parse error: "@ + m@,
                TlsSetupError::Rustls(e) => r@ == "rustls error: "@ + error_text(*e),
                TlsSetupError::SniAdd(m) => r@ == "SNI resolver error: "@ + m@,
            },
    {
        match self {
            TlsSetupError::NoCertificates => "no inline certificates provided".to_string(),
            TlsSetupError::CertParse(m) => {
                let mut r = "certificate parse error: ".to_string();
                r.append(m.as_str());
                r
            },
            TlsSetupError::KeyParse(m) => {
                let mut r = "private key parse error: ".to_string();
                r.append(m.as_str());
                r
            },
            TlsSetupError::Rustls(e) => {
                let mut r = "rustls error: ".to_string();
                let tail = rustls_error_text(e);
                r.append(tail.as_str());
                r
            },
            TlsSetupError::SniAdd(m) => {
                let mut r = "SNI resolver error: ".to_string();
                r.append(m.as_str());
                r
            },
        }
    }
}

// ---------------------------------------------------------------------------
// PEM
// ---------------------------------------------------------------------------

/// The encoding of a private key.
#[derive(Debug, Clone, Copy, PartialEq, Eq, Structural)]
pub enum KeyKind {
    Pkcs1,
    Sec1,
    Pkcs8,
}

/// A private key in DER.
#[derive(Debug, PartialEq)]
pub struct PrivateKey {
    pub kind: KeyKind,
    pub der: Vec<u8>,
}

/// The views of some byte vectors.
pub open spec fn byte_views(v: Seq<Vec<u8>>) -> Seq<Seq<u8>> {
    v.map_values(|b: Vec<u8>| b@)
}

/// What `rustls_pemfile::certs` finds in a text: the certificates in DER, or
/// the message of the error on which it stopped.
pub uninterp spec fn pem_certs(pem: Seq<char>) -> Result<Seq<Seq<u8>>, Seq<char>>;

/// `rustls_pemfile::certs` reads the certificates of a PEM text, in their
/// order, up to the first error. The result depends on the text alone; nothing
/// more is claimed of it.
#[verifier::external_body]
fn read_certs(pem: &str) -> (r: Result<Vec<Vec<u8>>, String>)
    ensures
        match r {
            Ok(certs) => pem_certs(pem@) == Ok::<Seq<Seq<u8>>, Seq<char>>(byte_views(certs@)),
            Err(m) => pem_certs(pem@) == Err::<Seq<Seq<u8>>, Seq<char>>(m@),
        },
{
    let mut bytes = pem.as_bytes();
    let found: Result<Vec<_>, _> = rustls_pemfile::certs(&mut bytes).collect();
    found.map(|c| c.iter().map(|d| d.to_vec()).collect()).map_err(|e| e.to_string())
}

/// What `rustls_pemfile::private_key` finds in a text: the first private key,
/// if there is one, or the message of the error on which it stopped.
pub uninterp spec fn pem_private_key(pem: Seq<char>) -> Result<
    Option<(KeyKind, Seq<u8>)>,
    Seq<char>,
>;

/// `rustls_pemfile::private_key` reads the first private key of a PEM text.
/// The result depends on the text alone; nothing more is claimed of it.
#[verifier::external_body]
fn read_private_key(pem: &str) -> (r: Result<Option<PrivateKey>, String>)
    ensures
        match r {
            Ok(None) => pem_private_key(pem@) == Ok::<Option<(KeyKind, Seq<u8>)>, Seq<char>>(None),
            Ok(Some(key)) => pem_private_key(pem@) == Ok::<
                Option<(KeyKind, Seq<u8>)>,
                Seq<char>,
            >(Some((key.kind, key.der@))),
            Err(m) => pem_private_key(pem@) == Err::<Option<(KeyKind, Seq<u8>)>, Seq<char>>(m@),
        },
{
    let mut bytes = pem.as_bytes();
    let found = rustls_pemfile::private_key(&mut bytes).map_err(|e| e.to_string())?;
    Ok(found.and_then(|k| {
        let der = k.secret_der().to_vec();
        match k {
            rustls::pki_types::PrivateKeyDer::Pkcs1(_) => Some((KeyKind::Pkcs1, der)),
            rustls::pki_types::PrivateKeyDer::Sec1(_) => Some((KeyKind::Sec1, der)),
            rustls::pki_types::PrivateKeyDer::Pkcs8(_) => Some((KeyKind::Pkcs8, der)),
            _ => None,
        }
    }).map(|(kind, der)| PrivateKey { kind, der }))
}

/// The chain of a PEM text, or why there is none: a text without certificates
/// is an error too.
pub open spec fn chain_of(pem: Seq<char>) -> Result<Seq<Seq<u8>>, Seq<char>> {
    match pem_certs(pem) {
        Ok(certs) => if certs.len() == 0 {
            Err("no certificates found in PEM data"@)
        } else {
            Ok(certs)
        },
        Err(m) => Err(m),
    }
}

/// The private key of a PEM text, or why there is none: a text without a key
/// is an error too.
pub open spec fn key_of(pem: Seq<char>) -> Result<(KeyKind, Seq<u8>), Seq<char>> {
    match pem_private_key(pem) {
        Ok(Some(key)) => Ok(key),
        Ok(None) => Err("no private key found in PEM data"@),
        Err(m) => Err(m),
    }
}

/// What is made of the certificates that were found: an error where there are
/// none.
pub fn check_certs(found: Result<Vec<Vec<u8>>, String>) -> (r: Result<Vec<Vec<u8>>, TlsSetupError>)
    ensures
        match found {
            Err(m) => r matches Err(TlsSetupError::CertParse(e)) && e == m,
            Ok(certs) => if certs@.len() == 0 {
                r matches Err(TlsSetupError::CertParse(e)) && e@
                    == "no certificates found in PEM data"@
            } else {
                r matches Ok(chain) && chain == certs
            },
        },
{
    match found {
        Err(m) => Err(TlsSetupError::CertParse(m)),
        Ok(certs) => if certs.len() == 0 {
            Err(TlsSetupError::CertParse("no certificates found in PEM data".to_string()))
        } else {
            Ok(certs)
        },
    }
}

/// What is made of the private key that was found: an error where there is
/// none.
pub fn check_private_key(found: Result<Option<PrivateKey>, String>) -> (r: Result<
    PrivateKey,
    TlsSetupError,
>)
    ensures
        match found {
            Err(m) => r matches Err(TlsSetupError::KeyParse(e)) && e == m,
            Ok(None) => r matches Err(TlsSetupError::KeyParse(e)) && e@
                == "no private key found in PEM data"@,
            Ok(Some(key)) => r matches Ok(k) && k == key,
        },
{
    match found {
        Err(m) => Err(TlsSetupError::KeyParse(m)),
        Ok(None) => Err(TlsSetupError::KeyParse("no private key found in PEM data".to_string())),
        Ok(Some(key)) => Ok(key),
    }
}

/// The certificate chain of a PEM text, in its order: leaf first.
pub fn parse_pem_certs(pem: &str) -> (r: Result<Vec<Vec<u8>>, TlsSetupError>)
    ensures
        match chain_of(pem@) {
            Ok(chain) => r matches Ok(certs) && byte_views(certs@) == chain,
            Err(m) => r matches Err(TlsSetupError::CertParse(e)) && e@ == m,
        },
{
    let found = read_certs(pem);
    assert(found is Ok ==> byte_views(found->Ok_0@).len() == found->Ok_0@.len());
    check_certs(found)
}

/// The first private key of a PEM text (PKCS#1, PKCS#8 or SEC1).
pub fn parse_pem_private_key(pem: &str) -> (r: Result<PrivateKey, TlsSetupError>)
    ensures
        match key_of(pem@) {
            Ok(key) => r matches Ok(k) && (k.kind, k.der@) == key,
            Err(m) => r matches Err(TlsSetupError::KeyParse(e)) && e@ == m,
        },
{
    check_private_key(read_private_key(pem))
}

// ---------------------------------------------------------------------------
// Server settings
// ---------------------------------------------------------------------------

/// A certificate chain and its private key.
pub struct Credential {
    pub chain: Seq<Seq<u8>>,
    pub kind: KeyKind,
    pub key: Seq<u8>,
}

/// Credentials by host name.
pub type NameTable = Map<Seq<char>, Credential>;

/// The chain and the private key that a certified key was made of.
pub uninterp spec fn certified(key: rustls::sign::CertifiedKey) -> Credential;

/// The credentials that a resolver holds, by host name in lower case.
pub uninterp spec fn sni_table(resolver: rustls::server::ResolvesServerCertUsingSni) -> NameTable;

/// A table without host names.
pub open spec fn no_names() -> NameTable {
    Map::empty()
}

/// The credential that server settings with a single certificate present.
pub uninterp spec fn served(settings: rustls::ServerConfig) -> Credential;

/// A chain and a key together.
pub open spec fn credential_of(chain: Vec<Vec<u8>>, key: PrivateKey) -> Credential {
    Credential { chain: byte_views(chain@), kind: key.kind, key: key.der@ }
}

/// `rustls::crypto::CryptoProvider::get_default` gives the provider that is
/// installed in this process, if one is. Nothing is claimed of it.
#[verifier::external_body]
fn installed_provider() -> (r: Option<Arc<rustls::crypto::CryptoProvider>>) {
    rustls::crypto::CryptoProvider::get_default().cloned()
}

/// `rustls::crypto::aws_lc_rs::default_provider`. Nothing is claimed of it.
#[verifier::external_body]
fn aws_lc_provider() -> (r: Arc<rustls::crypto::CryptoProvider>) {
    Arc::new(rustls::crypto::aws_lc_rs::default_provider())
}

/// Whether some provider makes `rustls::sign::CertifiedKey::from_der` refuse
/// the chain and the key with this error.
pub uninterp spec fn key_refused(credential: Credential, e: rustls::Error) -> bool;

/// Whether some provider makes `rustls::ServerConfig` refuse the chain and the
/// key as its single certificate with this error.
pub uninterp spec fn settings_refused(credential: Credential, e: rustls::Error) -> bool;

/// Why `ResolvesServerCertUsingSni::add` refuses a host name for a chain, in
/// words; `None` where it takes the name.
pub uninterp spec fn name_refusal(chain: Seq<Seq<u8>>, name: Seq<char>) -> Option<Seq<char>>;

/// Whether a chain covers a host name.
pub open spec fn covers_name(chain: Seq<Seq<u8>>, name: Seq<char>) -> bool {
    name_refusal(chain, name) is None
}

/// `rustls::sign::CertifiedKey::from_der` joins a chain and its key. Whether
/// it takes the key is up to the provider; where it does the result
/// holds the chain and the key, and where it does not the error is one on this
/// chain and this key.
#[verifier::external_body]
fn certify(
    provider: &Arc<rustls::crypto::CryptoProvider>,
    chain: Vec<Vec<u8>>,
    key: PrivateKey,
) -> (r: Result<rustls::sign::CertifiedKey, rustls::Error>)
    ensures
        match r {
            Ok(ck) => certified(ck) == credential_of(chain, key),
            Err(e) => key_refused(credential_of(chain, key), e),
        },
{
    let der = match key.kind {
        KeyKind::Pkcs1 => rustls::pki_types::PrivatePkcs1KeyDer::from(key.der).into(),
        KeyKind::Sec1 => rustls::pki_types::PrivateSec1KeyDer::from(key.der).into(),
        KeyKind::Pkcs8 => rustls::pki_types::PrivatePkcs8KeyDer::from(key.der).into(),
    };
    let certs = chain.into_iter().map(rustls::pki_types::CertificateDer::from).collect();
    rustls::sign::CertifiedKey::from_der(certs, der, provider)
}

/// `rustls::sign::CertifiedKey::clone` holds the same chain and key.
#[verifier::external_body]
fn clone_key(key: &rustls::sign::CertifiedKey) -> (r: rustls::sign::CertifiedKey)
    ensures
        certified(r) == certified(*key),
{
    key.clone()
}

/// `rustls::server::ResolvesServerCertUsingSni::new` gives a resolver without
/// certificates.
#[verifier::external_body]
fn new_resolver() -> (r: rustls::server::ResolvesServerCertUsingSni)
    ensures
        sni_table(r) == no_names(),
{
    rustls::server::ResolvesServerCertUsingSni::new()
}

/// `ResolvesServerCertUsingSni::add` puts a key under a host name, in place of
/// one that was there. It refuses what is no host name or does not fit the
/// certificate, and then changes nothing. Whether it does, and the text of the
/// error, depend on the chain and the name alone; nothing more is claimed of
/// them.
#[verifier::external_body]
fn add_name(
    resolver: &mut rustls::server::ResolvesServerCertUsingSni,
    name: &str,
    key: rustls::sign::CertifiedKey,
) -> (r: Result<(), rustls::Error>)
    ensures
        match r {
            Ok(_) => name_refusal(certified(key).chain, name@) is None,
            Err(e) => name_refusal(certified(key).chain, name@) == Some(error_text(e)),
        },
        r is Ok ==> sni_table(*final(resolver)) == sni_table(*old(resolver)).insert(
            text::lower(name@),
            certified(key),
        ),
        r is Err ==> sni_table(*final(resolver)) == sni_table(*old(resolver)),
{
    resolver.add(name, key)
}

/// `rustls::ServerConfig::builder_with_provider` and `with_single_cert`, with
/// the default protocol versions and no client certificates. Whether it takes
/// the key is up to the provider; where it does the settings present
/// chain and key, and where it does not the error is one on this chain and this
/// key.
#[verifier::external_body]
fn single_cert_settings(
    provider: Arc<rustls::crypto::CryptoProvider>,
    chain: Vec<Vec<u8>>,
    key: PrivateKey,
) -> (r: Result<rustls::ServerConfig, rustls::Error>)
    ensures
        match r {
            Ok(settings) => served(settings) == credential_of(chain, key),
            Err(e) => settings_refused(credential_of(chain, key), e),
        },
{
    let der = match key.kind {
        KeyKind::Pkcs1 => rustls::pki_types::PrivatePkcs1KeyDer::from(key.der).into(),
        KeyKind::Sec1 => rustls::pki_types::PrivateSec1KeyDer::from(key.der).into(),
        KeyKind::Pkcs8 => rustls::pki_types::PrivatePkcs8KeyDer::from(key.der).into(),
    };
    let certs = chain.into_iter().map(rustls::pki_types::CertificateDer::from).collect();
    let builder = rustls::ServerConfig::builder_with_provider(provider);
    let versions = builder.with_safe_default_protocol_versions()?;
    versions.with_no_client_auth().with_single_cert(certs, der)
}

/// What a TLS listener presents.
pub enum ServerCertificates {
    /// One certificate for every client.
    Single(rustls::ServerConfig),
    /// One of several, by the name that the client asks for.
    BySni(SniCertificates),
}

/// Certificates by host name.
pub struct SniCertificates {
    /// The provider that the keys were made with.
    pub provider: Arc<rustls::crypto::CryptoProvider>,
    /// The certificates, by host name.
    pub resolver: rustls::server::ResolvesServerCertUsingSni,
    /// The first certificate, for clients that name no host.
    pub first: rustls::sign::CertifiedKey,
    /// The first certificate without host names, for clients that name a host
    /// that no certificate has.
    pub fallback: Option<rustls::sign::CertifiedKey>,
}

/// A table with one credential more under these host names.
pub open spec fn with_names(
    table: NameTable,
    names: Seq<String>,
    credential: Credential,
) -> NameTable
    decreases names.len(),
{
    if names.len() == 0 {
        table
    } else {
        with_names(table, names.drop_last(), credential).insert(
            text::lower(names.last()@),
            credential,
        )
    }
}

/// Chain and key of a certificate that can be read.
pub open spec fn credential(cert: InlineCertificate) -> Credential {
    Credential {
        chain: chain_of(cert.cert_pem@)->Ok_0,
        kind: key_of(cert.key_pem@)->Ok_0.0,
        key: key_of(cert.key_pem@)->Ok_0.1,
    }
}

/// The credentials of certificates by host name: of two for the same name the later.
pub open spec fn table_of(certs: Seq<InlineCertificate>) -> NameTable
    decreases certs.len(),
{
    if certs.len() == 0 {
        Map::empty()
    } else {
        with_names(table_of(certs.drop_last()), certs.last().hostnames@, credential(certs.last()))
    }
}

/// The credential of the first certificate without host names.
pub open spec fn nameless(certs: Seq<InlineCertificate>) -> Option<Credential>
    decreases certs.len(),
{
    if certs.len() == 0 {
        None
    } else {
        match nameless(certs.drop_last()) {
            Some(c) => Some(c),
            None => if certs.last().hostnames@.len() == 0 {
                Some(credential(certs.last()))
            } else {
                None
            },
        }
    }
}

/// Whether chain and key of a certificate can be read.
pub open spec fn readable(cert: InlineCertificate) -> bool {
    chain_of(cert.cert_pem@) is Ok && key_of(cert.key_pem@) is Ok
}

/// Whether all these certificates can be read.
pub open spec fn all_readable(certs: Seq<InlineCertificate>) -> bool {
    forall|i: int| 0 <= i < certs.len() ==> readable(#[trigger] certs[i])
}

/// Whether a certificate covers its first `n` host names.
pub open spec fn covers_names(cert: InlineCertificate, n: int) -> bool {
    forall|j: int|
        0 <= j < n ==> covers_name(credential(cert).chain, #[trigger] cert.hostnames@[j]@)
}

/// Whether all these certificates cover their host names.
pub open spec fn all_covered(certs: Seq<InlineCertificate>) -> bool {
    forall|i: int|
        0 <= i < certs.len() ==> covers_names(#[trigger] certs[i], certs[i].hostnames@.len() as int)
}

/// Whether the certificates before `i` are in order: they can be read, and,
/// where there are several to choose among, they cover their host names.
pub open spec fn in_order_before(certs: Seq<InlineCertificate>, i: int) -> bool {
    &&& all_readable(certs.take(i))
    &&& certs.len() > 1 ==> all_covered(certs.take(i))
}

/// Whether the chain of certificate `i` is the first thing that cannot be
/// read, for this reason.
pub open spec fn chain_fails_at(certs: Seq<InlineCertificate>, i: int, m: Seq<char>) -> bool {
    &&& 0 <= i < certs.len()
    &&& in_order_before(certs, i)
    &&& chain_of(certs[i].cert_pem@) == Err::<Seq<Seq<u8>>, Seq<char>>(m)
}

/// Whether the key of certificate `i` is the first thing that cannot be read,
/// for this reason.
pub open spec fn key_fails_at(certs: Seq<InlineCertificate>, i: int, m: Seq<char>) -> bool {
    &&& 0 <= i < certs.len()
    &&& in_order_before(certs, i)
    &&& chain_of(certs[i].cert_pem@) is Ok
    &&& key_of(certs[i].key_pem@) == Err::<(KeyKind, Seq<u8>), Seq<char>>(m)
}

/// Whether `rustls` refuses certificate `i`, the first that is not in order,
/// with this error: as the only one, or as one to choose among.
pub open spec fn refused_at(certs: Seq<InlineCertificate>, i: int, e: rustls::Error) -> bool {
    &&& 0 <= i < certs.len()
    &&& in_order_before(certs, i)
    &&& readable(certs[i])
    &&& if certs.len() == 1 {
        settings_refused(credential(certs[i]), e)
    } else {
        key_refused(credential(certs[i]), e)
    }
}

/// Whether host name `j` of certificate `i` is the first that its certificate
/// does not cover, and `m` names it and says why.
pub open spec fn refuses_name(
    certs: Seq<InlineCertificate>,
    i: int,
    j: int,
    m: Seq<char>,
) -> bool {
    &&& 0 <= i < certs.len()
    &&& certs.len() > 1
    &&& in_order_before(certs, i)
    &&& readable(certs[i])
    &&& 0 <= j < certs[i].hostnames@.len()
    &&& covers_names(certs[i], j)
    &&& !covers_name(credential(certs[i]).chain, certs[i].hostnames@[j]@)
    &&& m == certs[i].hostnames@[j]@ + ": "@ + name_refusal(
        credential(certs[i]).chain,
        certs[i].hostnames@[j]@,
    )->0
}

/// Whether `m` is a message on a host name that its certificate does not cover.
pub open spec fn some_name_refused(certs: Seq<InlineCertificate>, m: Seq<char>) -> bool {
    exists|i: int, j: int| #[trigger] refuses_name(certs, i, j, m)
}

/// Whether `rustls` refuses one of the certificates with this error.
pub open spec fn some_key_refused(certs: Seq<InlineCertificate>, e: rustls::Error) -> bool {
    exists|i: int| #[trigger] refused_at(certs, i, e)
}

/// What certificates lead to. They are set up where all are in order and
/// `rustls` takes their keys. Else the error is that of the first that is not:
/// it cannot be read, `rustls` refuses its key, or it does not cover one of its
/// host names.
pub open spec fn sets_up(
    certs: Seq<InlineCertificate>,
    r: Result<ServerCertificates, TlsSetupError>,
) -> bool {
    match r {
        Ok(ServerCertificates::Single(settings)) => {
            &&& certs.len() == 1
            &&& all_readable(certs)
            &&& served(settings) == credential(certs[0])
        },
        Ok(ServerCertificates::BySni(table)) => {
            &&& certs.len() > 1
            &&& all_readable(certs)
            &&& all_covered(certs)
            &&& sni_table(table.resolver) == table_of(certs)
            &&& certified(table.first) == credential(certs[0])
            &&& match table.fallback {
                Some(key) => nameless(certs) == Some(certified(key)),
                None => nameless(certs) is None,
            }
        },
        Err(TlsSetupError::CertParse(m)) => exists|i: int| chain_fails_at(certs, i, m@),
        Err(TlsSetupError::KeyParse(m)) => exists|i: int| key_fails_at(certs, i, m@),
        Err(TlsSetupError::NoCertificates) => false,
        Err(TlsSetupError::Rustls(e)) => some_key_refused(certs, e),
        Err(TlsSetupError::SniAdd(m)) => some_name_refused(certs, m@),
    }
}

/// The message for a host name that was refused.
fn refused_name(name: &str, e: &rustls::Error) -> (r: String)
    ensures
        r@ == name@ + ": "@ + error_text(*e),
{
    let mut r = name.to_string();
    r.append(": ");
    let tail = rustls_error_text(e);
    r.append(tail.as_str());
    r
}

/// The chain and the key of certificate `i`, where those before it are in
/// order.
fn read_certificate(certs: &Vec<InlineCertificate>, i: usize) -> (r: Result<
    (Vec<Vec<u8>>, PrivateKey),
    TlsSetupError,
>)
    requires
        i < certs@.len(),
        in_order_before(certs@, i as int),
    ensures
        match r {
            Ok((parsed, key)) => {
                &&& all_readable(certs@.take(i + 1))
                &&& readable(certs@[i as int])
                &&& credential_of(parsed, key) == credential(certs@[i as int])
            },
            Err(TlsSetupError::CertParse(m)) => chain_fails_at(certs@, i as int, m@),
            Err(TlsSetupError::KeyParse(m)) => key_fails_at(certs@, i as int, m@),
            _ => false,
        },
{
    let ghost done = certs@.take(i as int);
    let ghost more = certs@.take(i + 1);
    let parsed = match parse_pem_certs(certs[i].cert_pem.as_str()) {
        Ok(c) => c,
        Err(e) => return Err(e),
    };
    let key = match parse_pem_private_key(certs[i].key_pem.as_str()) {
        Ok(k) => k,
        Err(e) => return Err(e),
    };
    assert forall|k: int| 0 <= k < more.len() implies readable(#[trigger] more[k]) by {
        if k < i {
            assert(more[k] == done[k]);
        }
    }
    Ok((parsed, key))
}

/// The settings for these certificates: a single one serves every client,
/// several are chosen among by SNI.
pub fn build_server_config(inline_certs: &Vec<InlineCertificate>) -> (r: Result<
    ServerCertificates,
    TlsSetupError,
>)
    requires
        inline_certs@.len() > 0,
    ensures
        sets_up(inline_certs@, r),
{
    let provider = match installed_provider() {
        Some(provider) => provider,
        None => aws_lc_provider(),
    };
    let certs = inline_certs;
    if certs.len() == 1 {
        assert(certs@.take(0) =~= Seq::empty());
        let (parsed, key) = match read_certificate(certs, 0) {
            Ok(pair) => pair,
            Err(e) => return Err(e),
        };
        assert(certs@.take(1) =~= certs@);
        return match single_cert_settings(provider, parsed, key) {
            Ok(settings) => Ok(ServerCertificates::Single(settings)),
            Err(e) => {
                assert(refused_at(certs@, 0, e));
                Err(TlsSetupError::Rustls(e))
            },
        };
    }
    let mut resolver = new_resolver();
    let mut first: Option<rustls::sign::CertifiedKey> = None;
    let mut fallback: Option<rustls::sign::CertifiedKey> = None;
    let mut i: usize = 0;
    assert(certs@.take(0) =~= Seq::empty());
    while i < certs.len()
        invariant
            i <= certs@.len(),
            certs@.len() > 1,
            certs == inline_certs,
            in_order_before(certs@, i as int),
            sni_table(resolver) == table_of(certs@.take(i as int)),
            match fallback {
                Some(key) => nameless(certs@.take(i as int)) == Some(certified(key)),
                None => nameless(certs@.take(i as int)) is None,
            },
            match first {
                Some(key) => i > 0 && certified(key) == credential(certs@[0]),
                None => i == 0,
            },
        decreases certs.len() - i,
    {
        let cert = &certs[i];
        assert(certs@.take(i + 1).drop_last() =~= certs@.take(i as int));
        let (parsed, key) = match read_certificate(certs, i) {
            Ok(pair) => pair,
            Err(e) => return Err(e),
        };
        let signed = match certify(&provider, parsed, key) {
            Ok(ck) => ck,
            Err(e) => {
                assert(refused_at(certs@, i as int, e));
                return Err(TlsSetupError::Rustls(e));
            },
        };
        let ghost before = sni_table(resolver);
        let mut j: usize = 0;
        assert(cert.hostnames@.take(0) =~= Seq::empty());
        while j < cert.hostnames.len()
            invariant
                j <= cert.hostnames@.len(),
                i < certs@.len(),
                certs@.len() > 1,
                certs == inline_certs,
                *cert == certs@[i as int],
                in_order_before(certs@, i as int),
                readable(*cert),
                certified(signed) == credential(*cert),
                covers_names(*cert, j as int),
                sni_table(resolver) == with_names(
                    before,
                    cert.hostnames@.take(j as int),
                    certified(signed),
                ),
            decreases cert.hostnames.len() - j,
        {
            let name = cert.hostnames[j].as_str();
            assert(cert.hostnames@.take(j + 1).drop_last() =~= cert.hostnames@.take(j as int));
            match add_name(&mut resolver, name, clone_key(&signed)) {
                Ok(_) => {},
                Err(e) => {
                    let m = refused_name(name, &e);
                    assert(refuses_name(certs@, i as int, j as int, m@));
                    return Err(TlsSetupError::SniAdd(m));
                },
            }
            j += 1;
        }
        assert(cert.hostnames@.take(j as int) =~= cert.hostnames@);
        assert forall|k: int| 0 <= k < i + 1 implies covers_names(
            #[trigger] certs@.take(i + 1)[k],
            certs@.take(i + 1)[k].hostnames@.len() as int,
        ) by {
            if k < i {
                assert(certs@.take(i + 1)[k] == certs@.take(i as int)[k]);
            }
        }
        if fallback.is_none() && cert.hostnames.len() == 0 {
            fallback = Some(clone_key(&signed));
        }
        if first.is_none() {
            first = Some(signed);
        }
        i += 1;
    }
    assert(certs@.take(i as int) =~= certs@);
    Ok(
        ServerCertificates::BySni(
            SniCertificates { provider, resolver, first: first.unwrap(), fallback },
        ),
    )
}

/// The certificates that a listener presents. `None` where TLS is passed
/// through and not terminated.
pub fn build_tls_acceptor(tls_config: &TlsConfig) -> (r: Result<
    Option<ServerCertificates>,
    TlsSetupError,
>)
    ensures
        if tls_config.mode == TlsMode::Passthrough {
            r matches Ok(None)
        } else if tls_config.inline_certificates@.len() == 0 {
            r matches Err(TlsSetupError::NoCertificates)
        } else {
            match r {
                Ok(Some(certs)) => sets_up(tls_config.inline_certificates@, Ok(certs)),
                Ok(None) => false,
                Err(e) => sets_up(tls_config.inline_certificates@, Err(e)),
            }
        },
{
    if tls_config.mode == TlsMode::Passthrough {
        return Ok(None);
    }
    if tls_config.inline_certificates.len() == 0 {
        return Err(TlsSetupError::NoCertificates);
    }
    match build_server_config(&tls_config.inline_certificates) {
        Ok(certs) => Ok(Some(certs)),
        Err(e) => Err(e),
    }
}

// ---------------------------------------------------------------------------
// Choosing a certificate
// ---------------------------------------------------------------------------

/// Which certificate a client gets.
#[derive(Debug, Clone, Copy, PartialEq, Eq, Structural)]
pub enum Presented {
    /// The one for the host that it names.
    Matched,
    /// The first.
    First,
    /// The first without host names.
    Fallback,
    /// None: the handshake fails.
    Nothing,
}

/// Which certificate a client gets: without a host the first, with one the
/// certificate for it, else the first without host names.
pub open spec fn presents(names_host: bool, known: bool, has_fallback: bool) -> Presented {
    if !names_host {
        Presented::First
    } else if known {
        Presented::Matched
    } else if has_fallback {
        Presented::Fallback
    } else {
        Presented::Nothing
    }
}

/// Which certificate a client gets. `names_host` is whether it names a host,
/// `known` whether a certificate has that host, and `has_fallback` whether
/// there is one without host names.
pub fn present(names_host: bool, known: bool, has_fallback: bool) -> (r: Presented)
    ensures
        r == presents(names_host, known, has_fallback),
{
    if !names_host {
        Presented::First
    } else if known {
        Presented::Matched
    } else if has_fallback {
        Presented::Fallback
    } else {
        Presented::Nothing
    }
}

// ---------------------------------------------------------------------------
// Laws
// ---------------------------------------------------------------------------

/// Certificates that can be read and cover their host names are set up, unless
/// `rustls` refuses the key of one of them. Several are set up by host name.
pub proof fn law_certificates_in_order_are_set_up(
    certs: Seq<InlineCertificate>,
    r: Result<ServerCertificates, TlsSetupError>,
)
    requires
        certs.len() > 0,
        all_readable(certs),
        all_covered(certs),
        sets_up(certs, r),
    ensures
        match r {
            Ok(set_up) => set_up is BySni <==> certs.len() > 1,
            Err(e) => e matches TlsSetupError::Rustls(e) && some_key_refused(certs, e),
        },
{
    assert forall|i: int, j: int, m: Seq<char>| !#[trigger] refuses_name(certs, i, j, m) by {
        if 0 <= i < certs.len() {
            assert(covers_names(certs[i], certs[i].hostnames@.len() as int));
        }
    }
    assert forall|i: int, m: Seq<char>| !#[trigger] chain_fails_at(certs, i, m) by {
        if 0 <= i < certs.len() {
            assert(readable(certs[i]));
        }
    }
    assert forall|i: int, m: Seq<char>| !#[trigger] key_fails_at(certs, i, m) by {
        if 0 <= i < certs.len() {
            assert(readable(certs[i]));
        }
    }
}

/// Certificates of which one cannot be read are never set up, nor are several
/// of which one does not cover its host names.
pub proof fn law_certificates_out_of_order_are_refused(
    certs: Seq<InlineCertificate>,
    r: Result<ServerCertificates, TlsSetupError>,
)
    requires
        !all_readable(certs) || (certs.len() > 1 && !all_covered(certs)),
        sets_up(certs, r),
    ensures
        r is Err,
{
}

/// The credential behind a choice among certificates, for a client that names
/// this host.
pub open spec fn credential_behind(
    table: SniCertificates,
    choice: Presented,
    host: Option<Seq<char>>,
) -> Option<Credential> {
    match choice {
        Presented::Matched => Some(sni_table(table.resolver)[host->0]),
        Presented::First => Some(certified(table.first)),
        Presented::Fallback => Some(certified(table.fallback->0)),
        Presented::Nothing => None,
    }
}

/// Among several certificates a client that names no host gets the first; one
/// that names a host gets the certificate for it, or else the first without
/// host names, if there is one.
pub proof fn law_clients_get_their_certificate(
    certs: Seq<InlineCertificate>,
    table: SniCertificates,
    host: Option<Seq<char>>,
)
    requires
        sets_up(certs, Ok(ServerCertificates::BySni(table))),
    ensures
        ({
            let known = host is Some && sni_table(table.resolver).contains_key(host->0);
            let choice = presents(host is Some, known, table.fallback is Some);
            credential_behind(table, choice, host) == match host {
                None => Some(credential(certs[0])),
                Some(name) => if table_of(certs).contains_key(name) {
                    Some(table_of(certs)[name])
                } else {
                    nameless(certs)
                },
            }
        }),
{
}

/// Every host name of a certificate leads to a certificate that has it, and
/// to this one where no later certificate has the name too.
pub proof fn law_names_lead_to_their_certificate(certs: Seq<InlineCertificate>, i: int, j: int)
    requires
        0 <= i < certs.len(),
        0 <= j < certs[i].hostnames@.len(),
        forall|k: int|
            i < k < certs.len() ==> !has_host(
                #[trigger] certs[k],
                text::lower(certs[i].hostnames@[j]@),
            ),
    ensures
        table_of(certs).contains_key(text::lower(certs[i].hostnames@[j]@)),
        table_of(certs)[text::lower(certs[i].hostnames@[j]@)] == credential(certs[i]),
    decreases certs.len(),
{
    let name = text::lower(certs[i].hostnames@[j]@);
    let last = certs.last();
    let front = certs.drop_last();
    if i == certs.len() - 1 {
        lemma_names_inserted(table_of(front), last.hostnames@, credential(last), j);
    } else {
        assert(front[i] == certs[i]);
        assert forall|k: int| i < k < front.len() implies !has_host(#[trigger] front[k], name) by {
            assert(front[k] == certs[k]);
        }
        law_names_lead_to_their_certificate(front, i, j);
        assert(!has_host(certs[certs.len() - 1], name));
        lemma_other_names_kept(table_of(front), last.hostnames@, credential(last), name);
    }
}

/// Whether a certificate has the host name, which is in lower case.
pub open spec fn has_host(cert: InlineCertificate, name: Seq<char>) -> bool {
    exists|j: int| 0 <= j < cert.hostnames@.len() && text::lower(#[trigger] cert.hostnames@[j]@) == name
}

proof fn lemma_names_inserted(
    table: NameTable,
    names: Seq<String>,
    credential: Credential,
    j: int,
)
    requires
        0 <= j < names.len(),
    ensures
        with_names(table, names, credential).contains_key(text::lower(names[j]@)),
        with_names(table, names, credential)[text::lower(names[j]@)] == credential,
    decreases names.len(),
{
    if j < names.len() - 1 {
        lemma_names_inserted(table, names.drop_last(), credential, j);
        assert(names.drop_last()[j] == names[j]);
    }
}

proof fn lemma_other_names_kept(
    table: NameTable,
    names: Seq<String>,
    credential: Credential,
    name: Seq<char>,
)
    requires
        forall|j: int| 0 <= j < names.len() ==> text::lower(#[trigger] names[j]@) != name,
    ensures
        with_names(table, names, credential).contains_key(name) == table.contains_key(name),
        table.contains_key(name) ==> with_names(table, names, credential)[name] == table[name],
    decreases names.len(),
{
    if names.len() > 0 {
        assert forall|j: int| 0 <= j < names.drop_last().len() implies text::lower(
            #[trigger] names.drop_last()[j]@,
        ) != name by {
            assert(names.drop_last()[j] == names[j]);
        }
        lemma_other_names_kept(table, names.drop_last(), credential, name);
        assert(text::lower(names[names.len() - 1]@) != name);
    }
}

/// A chain is what the certificates of its text are, and a key the key; a text
/// without any is an error of its own.
pub proof fn law_texts_without_certificates_are_errors(pem: Seq<char>)
    ensures
        pem_certs(pem) matches Ok(certs) ==> {
            &&& certs.len() > 0 ==> chain_of(pem) == Ok::<Seq<Seq<u8>>, Seq<char>>(certs)
            &&& certs.len() == 0 ==> chain_of(pem) == Err::<Seq<Seq<u8>>, Seq<char>>(
                "no certificates found in PEM data"@,
            )
        },
        pem_certs(pem) matches Err(m) ==> chain_of(pem) == Err::<Seq<Seq<u8>>, Seq<char>>(m),
        pem_private_key(pem) matches Ok(found) ==> {
            &&& found matches Some(key) ==> key_of(pem) == Ok::<(KeyKind, Seq<u8>), Seq<char>>(key)
            &&& found is None ==> key_of(pem) == Err::<(KeyKind, Seq<u8>), Seq<char>>(
                "no private key found in PEM data"@,
            )
        },
        pem_private_key(pem) matches Err(m) ==> key_of(pem) == Err::<
            (KeyKind, Seq<u8>),
            Seq<char>,
        >(m),
{
}

/// Where the first certificate cannot be read, that is the error: of its chain
/// before all else, then of its key.
pub proof fn law_unreadable_certificates_are_reported(
    certs: Seq<InlineCertificate>,
    r: Result<ServerCertificates, TlsSetupError>,
    m: Seq<char>,
)
    requires
        certs.len() > 0,
        sets_up(certs, r),
    ensures
        chain_of(certs[0].cert_pem@) == Err::<Seq<Seq<u8>>, Seq<char>>(m) ==> (r matches Err(
            TlsSetupError::CertParse(e),
        ) && e@ == m),
        chain_of(certs[0].cert_pem@) is Ok && key_of(certs[0].key_pem@) == Err::<
            (KeyKind, Seq<u8>),
            Seq<char>,
        >(m) ==> (r matches Err(TlsSetupError::KeyParse(e)) && e@ == m),
{
    if !readable(certs[0]) {
        assert forall|i: int| 0 < i <= certs.len() implies !all_readable(
            #[trigger] certs.take(i),
        ) by {
            assert(certs.take(i)[0] == certs[0]);
        }
        assert forall|i: int, e: rustls::Error| !#[trigger] refused_at(certs, i, e) by {
            if 0 < i < certs.len() {
                assert(!all_readable(certs.take(i)));
            }
        }
        assert forall|i: int, j: int, n: Seq<char>| !#[trigger] refuses_name(certs, i, j, n) by {
            if 0 < i < certs.len() {
                assert(!all_readable(certs.take(i)));
            }
        }
        assert forall|i: int, n: Seq<char>| #[trigger] chain_fails_at(certs, i, n) implies i
            == 0 by {
            if 0 < i < certs.len() {
                assert(!all_readable(certs.take(i)));
            }
        }
        assert forall|i: int, n: Seq<char>| #[trigger] key_fails_at(certs, i, n) implies i == 0 by {
            if 0 < i < certs.len() {
                assert(!all_readable(certs.take(i)));
            }
        }
    }
}

/// The certificate for clients that name an unknown host is the first without
/// host names.
pub proof fn law_the_first_nameless_certificate_is_the_default(
    certs: Seq<InlineCertificate>,
    i: int,
)
    ensures
        0 <= i < certs.len() && certs[i].hostnames@.len() == 0 && (forall|k: int|
            0 <= k < i ==> (#[trigger] certs[k]).hostnames@.len() > 0) ==> nameless(certs) == Some(
            credential(certs[i]),
        ),
        (forall|k: int| 0 <= k < certs.len() ==> (#[trigger] certs[k]).hostnames@.len() > 0)
            ==> nameless(certs) is None,
    decreases certs.len(),
{
    if certs.len() > 0 {
        let front = certs.drop_last();
        assert(forall|k: int| 0 <= k < front.len() ==> #[trigger] front[k] == certs[k]);
        law_the_first_nameless_certificate_is_the_default(front, i);
        assert(certs[certs.len() - 1] == certs.last());
    }
}

/// The credential of a certificate is the chain of its certificate text with the
/// key of its key text.
pub proof fn law_credentials_join_chain_and_key(cert: InlineCertificate)
    requires
        readable(cert),
    ensures
        pem_certs(cert.cert_pem@) == Ok::<Seq<Seq<u8>>, Seq<char>>(credential(cert).chain),
        pem_private_key(cert.key_pem@) == Ok::<Option<(KeyKind, Seq<u8>)>, Seq<char>>(
            Some((credential(cert).kind, credential(cert).key)),
        ),
{
}

/// A host name that is reported belongs to one of several certificates, whose
/// chain is refused for it, and the report says why; no host name before it is
/// refused.
pub proof fn law_reported_names_are_the_first_refused(
    certs: Seq<InlineCertificate>,
    m: String,
) -> (at: (int, int))
    requires
        sets_up(certs, Err(TlsSetupError::SniAdd(m))),
    ensures
        certs.len() > 1,
        0 <= at.0 < certs.len(),
        0 <= at.1 < certs[at.0].hostnames@.len(),
        name_refusal(
            credential(certs[at.0]).chain,
            certs[at.0].hostnames@[at.1]@,
        ) matches Some(why) && m@ == certs[at.0].hostnames@[at.1]@ + ": "@ + why,
        forall|i: int, j: int|
            0 <= i < certs.len() && 0 <= j < certs[i].hostnames@.len() && (i < at.0 || i == at.0
                && j < at.1) ==> name_refusal(
                credential(certs[i]).chain,
                #[trigger] certs[i].hostnames@[j]@,
            ) is None,
{
    let (a, b) = choose|i: int, j: int| #[trigger] refuses_name(certs, i, j, m@);
    assert forall|i: int, j: int|
        0 <= i < certs.len() && 0 <= j < certs[i].hostnames@.len() && (i < a || i == a && j
            < b) implies name_refusal(
        credential(certs[i]).chain,
        #[trigger] certs[i].hostnames@[j]@,
    ) is None by {
        if i < a {
            assert(certs.take(a)[i] == certs[i]);
            assert(covers_names(certs.take(a)[i], certs[i].hostnames@.len() as int));
        }
        assert(covers_name(credential(certs[i]).chain, certs[i].hostnames@[j]@));
    }
    (a, b)
}

/// Certificates cover their host names where none is refused for a host name of
/// its own, and only there.
pub proof fn law_covered_means_no_name_is_refused(certs: Seq<InlineCertificate>)
    ensures
        all_covered(certs) <==> forall|i: int, j: int|
            0 <= i < certs.len() && 0 <= j < certs[i].hostnames@.len() ==> name_refusal(
                credential(certs[i]).chain,
                #[trigger] certs[i].hostnames@[j]@,
            ) is None,
{
    if all_covered(certs) {
        assert forall|i: int, j: int|
            0 <= i < certs.len() && 0 <= j < certs[i].hostnames@.len() implies name_refusal(
            credential(certs[i]).chain,
            #[trigger] certs[i].hostnames@[j]@,
        ) is None by {
            assert(covers_names(certs[i], certs[i].hostnames@.len() as int));
            assert(covers_name(credential(certs[i]).chain, certs[i].hostnames@[j]@));
        }
    }
}

} // verus!

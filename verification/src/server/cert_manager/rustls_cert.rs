//! Certificates served through rustls (with the ring crypto backend).
//!
//! The files themselves are read by the caller; this module turns their PEM
//! text into a rustls `ServerConfig` with an SNI resolver, and decides which
//! failure is reported when something is wrong.

use std::sync::Arc;

use rustls::crypto::CryptoProvider;
use rustls::pki_types::{CertificateDer, PrivateKeyDer};
use rustls::server::{ResolvesServerCertUsingSni, ServerConfig, WebPkiClientVerifier};
use rustls::sign::CertifiedKey;
use rustls::RootCertStore;
use vstd::prelude::*;

use super::config::CertConfig;
use crate::common::text::{concat, spec_ends_with, str_contains_char, str_ends_with, str_prefix, texts};

verus! {

// ---------------------------------------------------------------------------
// Outside types carried through the logic.
// ---------------------------------------------------------------------------

#[verifier::external_type_specification]
#[verifier::external_body]
pub struct ExServerConfig(ServerConfig);

#[verifier::external_type_specification]
#[verifier::external_body]
pub struct ExResolvesServerCertUsingSni(ResolvesServerCertUsingSni);

#[verifier::external_type_specification]
#[verifier::external_body]
pub struct ExCertifiedKey(CertifiedKey);

#[verifier::external_type_specification]
#[verifier::external_body]
pub struct ExCryptoProvider(CryptoProvider);

#[verifier::external_type_specification]
#[verifier::external_body]
pub struct ExRootCertStore(RootCertStore);

#[verifier::external_type_specification]
#[verifier::external_body]
pub struct ExPrivateKeyDer<'a>(PrivateKeyDer<'a>);

// ---------------------------------------------------------------------------
// ALPN.
// ---------------------------------------------------------------------------

/// The ALPN identifier of HTTP/2, `h2`.
pub open spec fn alpn_h2() -> Seq<u8> {
    seq![0x68u8, 0x32u8]
}

/// The ALPN identifier of HTTP/1.1, `http/1.1`.
pub open spec fn alpn_http11() -> Seq<u8> {
    seq![0x68u8, 0x74u8, 0x74u8, 0x70u8, 0x2fu8, 0x31u8, 0x2eu8, 0x31u8]
}

/// Whether `a` holds exactly the bytes `b`.
fn bytes_equal(a: &[u8], b: &[u8]) -> (r: bool)
    ensures
        r == (a@ == b@),
{
    if a.len() != b.len() {
        return false;
    }
    let mut i: usize = 0;
    while i < a.len()
        invariant
            i <= a.len(),
            a.len() == b.len(),
            forall|j: int| 0 <= j < i ==> a@[j] == b@[j],
        decreases a.len() - i,
    {
        if a[i] != b[i] {
            return false;
        }
        i = i + 1;
    }
    assert(a@ =~= b@);
    true
}

/// The bytes of `h2`.
fn h2_bytes() -> (r: Vec<u8>)
    ensures
        r@ == alpn_h2(),
{
    let r: Vec<u8> = vec![0x68u8, 0x32u8];
    assert(r@ =~= alpn_h2());
    r
}

/// The bytes of `http/1.1`.
fn http11_bytes() -> (r: Vec<u8>)
    ensures
        r@ == alpn_http11(),
{
    let r: Vec<u8> = vec![0x68u8, 0x74u8, 0x74u8, 0x70u8, 0x2fu8, 0x31u8, 0x2eu8, 0x31u8];
    assert(r@ =~= alpn_http11());
    r
}

/// The protocols offered in the TLS handshake, most preferred first: HTTP/2,
/// then HTTP/1.1 (so that the handshake completes and the application can
/// turn HTTP/1.1 away itself).
pub fn offered_alpn_protocols() -> (r: Vec<Vec<u8>>)
    ensures
        r.deep_view() == seq![alpn_h2(), alpn_http11()],
{
    let a = h2_bytes();
    let b = http11_bytes();
    let r: Vec<Vec<u8>> = vec![a, b];
    assert(r.deep_view()[0] =~= alpn_h2());
    assert(r.deep_view()[1] =~= alpn_http11());
    assert(r.deep_view() =~= seq![alpn_h2(), alpn_http11()]);
    r
}

/// ALPN negotiated HTTP/2.
pub open spec fn negotiated_http2(protocol: Option<Vec<u8>>) -> bool {
    protocol matches Some(p) && p@ == alpn_h2()
}

/// The connection speaks HTTP/1.1: ALPN chose `http/1.1` or nothing.
pub open spec fn negotiated_http11(protocol: Option<Vec<u8>>) -> bool {
    protocol matches Some(p) ==> p@ == alpn_http11()
}

/// No connection counts as both HTTP/2 and HTTP/1.1.
pub proof fn lemma_alpn_never_both(protocol: Option<Vec<u8>>)
    ensures
        !(negotiated_http2(protocol) && negotiated_http11(protocol)),
{
    if let Some(p) = protocol {
        if p@ == alpn_h2() && p@ == alpn_http11() {
            assert(alpn_h2().len() != alpn_http11().len());
        }
    }
}

/// Checks on the protocol that ALPN negotiated.
pub struct AlpnProtocol;

impl AlpnProtocol {
    /// Whether the negotiated protocol is HTTP/2.
    pub fn is_http2(protocol: &Option<Vec<u8>>) -> (r: bool)
        ensures
            r == negotiated_http2(*protocol),
    {
        match protocol {
            Some(p) => {
                let h2 = h2_bytes();
                bytes_equal(p.as_slice(), h2.as_slice())
            },
            None => false,
        }
    }

    /// Whether the connection speaks HTTP/1.1: ALPN chose `http/1.1`, or no
    /// protocol was negotiated at all.
    pub fn is_http11(protocol: &Option<Vec<u8>>) -> (r: bool)
        ensures
            r == negotiated_http11(*protocol),
    {
        match protocol {
            Some(p) => {
                let h11 = http11_bytes();
                bytes_equal(p.as_slice(), h11.as_slice())
            },
            None => true,
        }
    }
}


// ---------------------------------------------------------------------------
// Calls into rustls-pemfile and rustls.
// ---------------------------------------------------------------------------

/// The certificates in PEM text, each as its DER bytes, in order; or the text
/// of the first read error.
pub uninterp spec fn pem_certificate_list(pem: Seq<u8>) -> Result<Seq<Seq<u8>>, Seq<char>>;

/// Whether PEM text holds a private key (`Ok(true)`), holds none
/// (`Ok(false)`), or cannot be read (the error text).
pub uninterp spec fn pem_private_key_found(pem: Seq<u8>) -> Result<bool, Seq<char>>;

/// `rustls_pemfile::certs`, collected into a list: every `CERTIFICATE`
/// section of `pem`, in order, as DER bytes, or the text of the first error.
/// The result is a function of the text alone, named `pem_certificate_list`.
#[verifier::external_body]
fn read_pem_certificates(pem: &[u8]) -> (r: Result<Vec<Vec<u8>>, String>)
    ensures
        match r {
            Ok(v) => pem_certificate_list(pem@) == Ok::<Seq<Seq<u8>>, Seq<char>>(v.deep_view()),
            Err(e) => pem_certificate_list(pem@) == Err::<Seq<Seq<u8>>, Seq<char>>(e@),
        },
{
    let mut rd: &[u8] = pem;
    rustls_pemfile::certs(&mut rd)
        .map(|c| c.map(|der| der.as_ref().to_vec()))
        .collect::<Result<Vec<Vec<u8>>, std::io::Error>>()
        .map_err(|e| e.to_string())
}

/// `rustls_pemfile::private_key`: the first private-key section of `pem`, if
/// any, or the text of the read error. Whether a key was found, and the error
/// text, are named by `pem_private_key_found`; the key itself is carried on
/// without being looked into.
#[verifier::external_body]
fn read_pem_private_key(pem: &[u8]) -> (r: Result<Option<PrivateKeyDer<'static>>, String>)
    ensures
        match r {
            Ok(k) => pem_private_key_found(pem@) == Ok::<bool, Seq<char>>(k is Some),
            Err(e) => pem_private_key_found(pem@) == Err::<bool, Seq<char>>(e@),
        },
{
    let mut rd: &[u8] = pem;
    rustls_pemfile::private_key(&mut rd).map_err(|e| e.to_string())
}

/// `rustls::crypto::ring::default_provider`: the ring crypto provider.
#[verifier::external_body]
fn ring_provider() -> (r: CryptoProvider) {
    rustls::crypto::ring::default_provider()
}

/// `rustls::sign::CertifiedKey::from_der`: pairs a certificate chain with
/// its private key, checking that they match where the provider can tell.
/// Nothing is claimed of the outcome; a failure comes back as the error's
/// debug text.
#[verifier::external_body]
fn certified_key_from_der(
    chain: Vec<Vec<u8>>,
    key: PrivateKeyDer<'static>,
    provider: &CryptoProvider,
) -> (r: Result<CertifiedKey, String>) {
    let chain: Vec<CertificateDer<'static>> = chain.into_iter().map(CertificateDer::from).collect();
    CertifiedKey::from_der(chain, key, provider).map_err(|e| format!("{:?}", e))
}

/// `Clone::clone` of a `CertifiedKey` (it shares the signing key).
#[verifier::external_body]
fn clone_certified_key(k: &CertifiedKey) -> (r: CertifiedKey) {
    k.clone()
}

/// The names (SNI host names, lowercased) that a resolver holds a
/// certificate for.
pub uninterp spec fn sni_names(r: ResolvesServerCertUsingSni) -> Set<Seq<char>>;

/// ASCII lowercase of a text.
pub open spec fn ascii_lower(s: Seq<char>) -> Seq<char> {
    s.map_values(
        |c: char|
            if 65 <= (c as u32) <= 90 {
                ((c as u32) + 32) as char
            } else {
                c
            },
    )
}

/// `ResolvesServerCertUsingSni::new`: a resolver that knows no names.
#[verifier::external_body]
fn new_sni_resolver() -> (r: ResolvesServerCertUsingSni)
    ensures
        sni_names(r) == Set::<Seq<char>>::empty(),
{
    ResolvesServerCertUsingSni::new()
}

/// `ResolvesServerCertUsingSni::add`: on success the resolver also knows the
/// name (lowercased, as rustls stores it); on failure (the name is not a DNS
/// name, or the certificate does not cover it) the resolver is unchanged and
/// the error's debug text comes back.
#[verifier::external_body]
fn sni_resolver_add(
    resolver: &mut ResolvesServerCertUsingSni,
    name: &str,
    key: CertifiedKey,
) -> (r: Result<(), String>)
    ensures
        r is Ok ==> sni_names(*final(resolver)) == sni_names(*old(resolver)).insert(ascii_lower(name@)),
        r is Err ==> sni_names(*final(resolver)) == sni_names(*old(resolver)),
{
    resolver.add(name, key).map_err(|e| format!("{:?}", e))
}

/// `RootCertStore::empty`: a store with no trust anchors.
#[verifier::external_body]
fn empty_root_store() -> (r: RootCertStore) {
    RootCertStore::empty()
}

/// `RootCertStore::add`: adds one DER certificate as a trust anchor; a
/// failure comes back as the error's debug text.
#[verifier::external_body]
fn root_store_add(store: &mut RootCertStore, der: Vec<u8>) -> (r: Result<(), String>) {
    store.add(CertificateDer::from(der)).map_err(|e| format!("{:?}", e))
}

/// `WebPkiClientVerifier::builder(..).build()` and then
/// `ServerConfig::builder().with_client_cert_verifier(..).with_cert_resolver(..)`:
/// a server configuration that requires and verifies client certificates
/// against `roots`. The verifier is a trait object handed straight to the
/// configuration builder, so the two calls stand together; only building the
/// verifier can fail, and its error's debug text comes back.
#[verifier::external_body]
fn server_config_verifying_clients(
    roots: RootCertStore,
    resolver: Arc<ResolvesServerCertUsingSni>,
) -> (r: Result<ServerConfig, String>) {
    let verifier = WebPkiClientVerifier::builder(Arc::new(roots)).build().map_err(|e| format!("{:?}", e))?;
    Ok(ServerConfig::builder().with_client_cert_verifier(verifier).with_cert_resolver(resolver))
}

/// `ServerConfig::builder().with_no_client_auth().with_cert_resolver(..)`: a
/// server configuration that asks no client certificate.
#[verifier::external_body]
fn server_config_without_client_auth(resolver: Arc<ResolvesServerCertUsingSni>) -> (r: ServerConfig) {
    ServerConfig::builder().with_no_client_auth().with_cert_resolver(resolver)
}

/// Sets the `alpn_protocols` field of a server configuration.
#[verifier::external_body]
fn set_alpn_protocols(config: &mut ServerConfig, protocols: Vec<Vec<u8>>) {
    config.alpn_protocols = protocols;
}

/// `Arc::clone`: another pointer to the same value.
#[verifier::external_body]
fn share<T>(a: &Arc<T>) -> (r: Arc<T>)
    ensures
        r == *a,
{
    Arc::clone(a)
}

// ---------------------------------------------------------------------------
// Loading one certificate with its key.
// ---------------------------------------------------------------------------

/// Why a certificate and its key could not be loaded.
pub enum KeyLoadFailure {
    /// The certificate file could not be read (its error text).
    CertRead(String),
    /// The certificate PEM could not be parsed (the parser's error text).
    CertParse(String),
    /// The key file could not be read (its error text).
    KeyRead(String),
    /// The key PEM could not be parsed (the parser's error text).
    KeyParse(String),
    /// The key file holds no private key.
    NoKey,
    /// The certificate file holds no certificate.
    NoCertificate,
    /// rustls refused to pair the chain with the key (its error text).
    Pairing(String),
}

/// A failure seen as a kind number and its text (empty for the kinds that
/// carry none), so that spec code can name one.
pub open spec fn failure_view(f: KeyLoadFailure) -> (int, Seq<char>) {
    match f {
        KeyLoadFailure::CertRead(e) => (0, e@),
        KeyLoadFailure::CertParse(e) => (1, e@),
        KeyLoadFailure::KeyRead(e) => (2, e@),
        KeyLoadFailure::KeyParse(e) => (3, e@),
        KeyLoadFailure::NoKey => (4, Seq::empty()),
        KeyLoadFailure::NoCertificate => (5, Seq::empty()),
        KeyLoadFailure::Pairing(e) => (6, e@),
    }
}

/// The failure (as `failure_view` writes it), read off the file contents
/// alone, that stops loading before rustls pairs the chain with the key; none
/// when the contents get that far. The certificate is parsed before the key
/// file is looked at, and an empty chain is reported only once the key has
/// been found.
pub open spec fn early_load_failure(
    cert: Result<Vec<u8>, String>,
    key: Result<Vec<u8>, String>,
) -> Option<(int, Seq<char>)> {
    match cert {
        Err(e) => Some((0, e@)),
        Ok(c) => match pem_certificate_list(c@) {
            Err(e) => Some((1, e)),
            Ok(chain) => match key {
                Err(e) => Some((2, e@)),
                Ok(k) => match pem_private_key_found(k@) {
                    Err(e) => Some((3, e)),
                    Ok(found) => if !found {
                        Some((4, Seq::empty()))
                    } else if chain.len() == 0 {
                        Some((5, Seq::empty()))
                    } else {
                        None
                    },
                },
            },
        },
    }
}

/// Parses a certificate chain and its private key and pairs them with the
/// ring provider. The failure is the first of: the certificate not read or
/// not parsed, the key not read or not parsed, no key, an empty chain; past
/// those, only rustls can refuse the pair.
fn load_certified_key(
    cert: &Result<Vec<u8>, String>,
    key: &Result<Vec<u8>, String>,
    provider: &CryptoProvider,
) -> (r: Result<CertifiedKey, KeyLoadFailure>)
    ensures
        match early_load_failure(*cert, *key) {
            Some(f) => r matches Err(g) && failure_view(g) == f,
            None => r is Ok || r matches Err(KeyLoadFailure::Pairing(_)),
        },
{
    let cert_pem = match cert {
        Ok(b) => b,
        Err(e) => return Err(KeyLoadFailure::CertRead(e.clone())),
    };
    let chain = match read_pem_certificates(cert_pem.as_slice()) {
        Ok(c) => c,
        Err(e) => return Err(KeyLoadFailure::CertParse(e)),
    };
    let key_pem = match key {
        Ok(b) => b,
        Err(e) => return Err(KeyLoadFailure::KeyRead(e.clone())),
    };
    let private_key = match read_pem_private_key(key_pem.as_slice()) {
        Ok(Some(k)) => k,
        Ok(None) => return Err(KeyLoadFailure::NoKey),
        Err(e) => return Err(KeyLoadFailure::KeyParse(e)),
    };
    if chain.len() == 0 {
        proof {
            assert(chain.deep_view().len() == 0);
        }
        return Err(KeyLoadFailure::NoCertificate);
    }
    match certified_key_from_der(chain, private_key, provider) {
        Ok(k) => Ok(k),
        Err(e) => Err(KeyLoadFailure::Pairing(e)),
    }
}


// ---------------------------------------------------------------------------
// The manager.
// ---------------------------------------------------------------------------

/// The names an SNI resolver answers for when it was given `domains`:
/// each domain, lowercased.
pub open spec fn names_of(domains: Seq<Seq<char>>) -> Set<Seq<char>> {
    Set::new(|n: Seq<char>| exists|i: int| 0 <= i < domains.len() && n == ascii_lower(#[trigger] domains[i]))
}

proof fn lemma_names_of_push(ds: Seq<Seq<char>>, d: Seq<char>)
    ensures
        names_of(ds.push(d)) == names_of(ds).insert(ascii_lower(d)),
{
    let ext = ds.push(d);
    assert forall|n: Seq<char>| names_of(ext).contains(n) implies names_of(ds).insert(ascii_lower(d)).contains(n) by {
        let i = choose|i: int| 0 <= i < ext.len() && n == ascii_lower(#[trigger] ext[i]);
        if i < ds.len() {
            assert(ext[i] == ds[i]);
            assert(names_of(ds).contains(n));
        }
    }
    assert forall|n: Seq<char>| names_of(ds).insert(ascii_lower(d)).contains(n) implies names_of(ext).contains(n) by {
        if n == ascii_lower(d) {
            assert(ext[ds.len() as int] == d);
        } else {
            let i = choose|i: int| 0 <= i < ds.len() && n == ascii_lower(#[trigger] ds[i]);
            assert(ext[i] == ds[i]);
        }
    }
    assert(names_of(ext) =~= names_of(ds).insert(ascii_lower(d)));
}

/// The domains a certificate is installed for: those configured, or the
/// single name `default` when none is.
pub open spec fn effective_domains(configured: Seq<String>) -> Seq<Seq<char>> {
    if configured.len() == 0 {
        seq!["default"@]
    } else {
        texts(configured)
    }
}

/// A rustls server configuration with its SNI resolver and the domains it
/// serves.
pub struct RustlsCertManager {
    sni_resolver: Arc<ResolvesServerCertUsingSni>,
    server_config: Arc<ServerConfig>,
    domains: Vec<String>,
}

impl RustlsCertManager {
    /// The domains served, in the order they were installed.
    pub closed spec fn domain_list(&self) -> Seq<Seq<char>> {
        texts(self.domains@)
    }

    /// The names the SNI resolver holds a certificate for.
    pub closed spec fn served_names(&self) -> Set<Seq<char>> {
        sni_names(*self.sni_resolver)
    }

    /// The server configuration handed to the TLS acceptor.
    pub closed spec fn config(&self) -> ServerConfig {
        *self.server_config
    }

    /// The resolver answers for exactly the listed domains.
    pub open spec fn well_formed(&self) -> bool {
        self.served_names() == names_of(self.domain_list())
    }

    /// The server configuration (shared, not copied).
    pub fn get_server_config(&self) -> (r: Arc<ServerConfig>)
        ensures
            *r == self.config(),
    {
        share(&self.server_config)
    }

    /// The domains served.
    pub fn get_domains(&self) -> (r: &[String])
        ensures
            texts(r@) == self.domain_list(),
    {
        self.domains.as_slice()
    }

    /// Whether `domain` is one of the domains served (compared exactly).
    pub fn supports_domain(&self, domain: &str) -> (r: bool)
        ensures
            r == self.domain_list().contains(domain@),
    {
        let mut i: usize = 0;
        while i < self.domains.len()
            invariant
                i <= self.domains.len(),
                forall|j: int| 0 <= j < i ==> (#[trigger] self.domains@[j])@ != domain@,
            decreases self.domains.len() - i,
        {
            if crate::common::text::str_eq(self.domains[i].as_str(), domain) {
                assert(self.domain_list()[i as int] == domain@);
                return true;
            }
            i = i + 1;
        }
        proof {
            if self.domain_list().contains(domain@) {
                let j = choose|j: int| 0 <= j < self.domain_list().len() && self.domain_list()[j] == domain@;
                assert(self.domains@[j]@ == domain@);
            }
        }
        false
    }

    /// Installs one certified key in a new resolver for every domain, in
    /// order; stops at the first domain rustls refuses.
    fn resolver_for(domains: &Vec<String>, key: &CertifiedKey) -> (r: Result<ResolvesServerCertUsingSni, String>)
        ensures
            r matches Ok(res) ==> sni_names(res) == names_of(texts(domains@)),
            r matches Err(s) ==> crate::common::text::spec_starts_with(s@, "添加证书到 SNI 解析器失败: "@),
    {
        let mut resolver = new_sni_resolver();
        let mut i: usize = 0;
        while i < domains.len()
            invariant
                i <= domains.len(),
                sni_names(resolver) == names_of(texts(domains@).take(i as int)),
            decreases domains.len() - i,
        {
            let k = clone_certified_key(key);
            match sni_resolver_add(&mut resolver, domains[i].as_str(), k) {
                Ok(()) => {},
                Err(e) => {
                    let s = concat("添加证书到 SNI 解析器失败: ", e.as_str());
                    proof {
                        lemma_prefix_of_concat("添加证书到 SNI 解析器失败: "@, e@);
                    }
                    return Err(s);
                },
            }
            proof {
                lemma_names_of_push(texts(domains@).take(i as int), domains@[i as int]@);
                assert(texts(domains@).take(i as int).push(domains@[i as int]@) =~= texts(domains@).take(i + 1));
            }
            i = i + 1;
        }
        assert(texts(domains@).take(i as int) =~= texts(domains@));
        Ok(resolver)
    }
}

/// `p` is a prefix of `p + t`.
pub proof fn lemma_prefix_of_concat(p: Seq<char>, t: Seq<char>)
    ensures
        crate::common::text::spec_starts_with(p + t, p),
{
    assert((p + t).subrange(0, p.len() as int) =~= p);
}

} // verus!

verus! {

/// The contents of the files named by a `CertConfig`, as read by the caller:
/// each file's bytes, or the text of the error met opening or reading it.
pub struct CertFileContents {
    /// The certificate file.
    pub cert: Result<Vec<u8>, String>,
    /// The private key file.
    pub key: Result<Vec<u8>, String>,
    /// The CA certificate file, present exactly when the configuration names one.
    pub ca: Option<Result<Vec<u8>, String>>,
}

/// The message `from_config` gives for a loading failure (as `failure_view`
/// writes it).
pub open spec fn config_failure_text(f: (int, Seq<char>)) -> Seq<char> {
    if f.0 == 0 {
        "打开证书文件失败: "@ + f.1
    } else if f.0 == 1 {
        "解析证书失败: "@ + f.1
    } else if f.0 == 2 {
        "打开私钥文件失败: "@ + f.1
    } else if f.0 == 3 {
        "解析私钥失败: "@ + f.1
    } else if f.0 == 4 {
        "私钥文件为空"@
    } else if f.0 == 5 {
        "证书为空"@
    } else {
        "创建 CertifiedKey 失败: "@ + f.1
    }
}

/// The message `from_config` gives for a loading failure.
fn config_failure_message(f: KeyLoadFailure) -> (r: String)
    ensures
        r@ == config_failure_text(failure_view(f)),
{
    match f {
        KeyLoadFailure::CertRead(e) => concat("打开证书文件失败: ", e.as_str()),
        KeyLoadFailure::CertParse(e) => concat("解析证书失败: ", e.as_str()),
        KeyLoadFailure::KeyRead(e) => concat("打开私钥文件失败: ", e.as_str()),
        KeyLoadFailure::KeyParse(e) => concat("解析私钥失败: ", e.as_str()),
        KeyLoadFailure::NoKey => String::from_str("私钥文件为空"),
        KeyLoadFailure::NoCertificate => String::from_str("证书为空"),
        KeyLoadFailure::Pairing(e) => concat("创建 CertifiedKey 失败: ", e.as_str()),
    }
}

/// The failure, read off the CA file's contents alone, that stops building a
/// client-verifying configuration; none when there is no CA file or when its
/// certificates parse and are not empty.
pub open spec fn ca_failure(ca: Option<Result<Vec<u8>, String>>) -> Option<Seq<char>> {
    match ca {
        None => None,
        Some(Err(e)) => Some("打开 CA 证书文件失败: "@ + e@),
        Some(Ok(c)) => match pem_certificate_list(c@) {
            Err(e) => Some("解析 CA 证书失败: "@ + e),
            Ok(chain) => if chain.len() == 0 {
                Some("CA 证书为空"@)
            } else {
                None
            },
        },
    }
}

/// The failures that only rustls decides, after the certificate and key have
/// been read: pairing them, installing them for a domain, and (with a CA file)
/// the CA stage.
pub open spec fn late_config_failure(s: Seq<char>, ca: Option<Result<Vec<u8>, String>>) -> bool {
    ||| crate::common::text::spec_starts_with(s, "创建 CertifiedKey 失败: "@)
    ||| crate::common::text::spec_starts_with(s, "添加证书到 SNI 解析器失败: "@)
    ||| ca_failure(ca) == Some(s)
    ||| (ca is Some && ca_failure(ca) is None && (
        crate::common::text::spec_starts_with(s, "添加 CA 证书到 RootCertStore 失败: "@)
        || crate::common::text::spec_starts_with(s, "创建客户端证书验证器失败: "@)))
}

/// Builds a client-verifying server configuration from the CA file.
fn config_verifying_clients(
    ca: &Result<Vec<u8>, String>,
    resolver: &Arc<ResolvesServerCertUsingSni>,
) -> (r: Result<ServerConfig, String>)
    ensures
        match ca_failure(Some(*ca)) {
            Some(m) => r matches Err(s) && s@ == m,
            None => r matches Err(s) ==> (
                crate::common::text::spec_starts_with(s@, "添加 CA 证书到 RootCertStore 失败: "@)
                || crate::common::text::spec_starts_with(s@, "创建客户端证书验证器失败: "@)),
        },
{
    let ca_pem = match ca {
        Ok(b) => b,
        Err(e) => return Err(concat("打开 CA 证书文件失败: ", e.as_str())),
    };
    let ca_certs = match read_pem_certificates(ca_pem.as_slice()) {
        Ok(c) => c,
        Err(e) => return Err(concat("解析 CA 证书失败: ", e.as_str())),
    };
    if ca_certs.len() == 0 {
        proof {
            assert(ca_certs.deep_view().len() == 0);
        }
        return Err(String::from_str("CA 证书为空"));
    }
    proof {
        assert(ca_certs.deep_view().len() != 0);
    }
    let mut roots = empty_root_store();
    let mut i: usize = 0;
    while i < ca_certs.len()
        invariant
            i <= ca_certs.len(),
            ca_failure(Some(*ca)) is None,
        decreases ca_certs.len() - i,
    {
        let der = ca_certs[i].clone();
        match root_store_add(&mut roots, der) {
            Ok(()) => {},
            Err(e) => {
                let s = concat("添加 CA 证书到 RootCertStore 失败: ", e.as_str());
                proof {
                    lemma_prefix_of_concat("添加 CA 证书到 RootCertStore 失败: "@, e@);
                }
                return Err(s);
            },
        }
        i = i + 1;
    }
    match server_config_verifying_clients(roots, share(resolver)) {
        Ok(c) => Ok(c),
        Err(e) => {
            let s = concat("创建客户端证书验证器失败: ", e.as_str());
            proof {
                lemma_prefix_of_concat("创建客户端证书验证器失败: "@, e@);
            }
            Err(s)
        },
    }
}

impl RustlsCertManager {
    /// Loads one certificate with its key, given the contents of the files its
    /// configuration names. The certificate is installed for every configured
    /// domain (for the single name `default` when none is); with a CA file,
    /// client certificates are required and verified against it. The
    /// handshake offers HTTP/2 and HTTP/1.1.
    ///
    /// The first failure found in the file contents is reported as it stands;
    /// past those, rustls may still refuse the key, a domain, or the CA.
    pub fn from_config(cert_config: &CertConfig, files: &CertFileContents) -> (r: Result<Self, String>)
        requires
            cert_config.ca_path is Some <==> files.ca is Some,
        ensures
            match early_load_failure(files.cert, files.key) {
                Some(f) => r matches Err(s) && s@ == config_failure_text(f),
                None => match r {
                    Ok(m) => {
                        &&& m.domain_list() == effective_domains(cert_config.domains@)
                        &&& m.well_formed()
                        &&& ca_failure(files.ca) is None
                    },
                    Err(s) => late_config_failure(s@, files.ca),
                },
            },
    {
        let provider = ring_provider();
        let key = match load_certified_key(&files.cert, &files.key, &provider) {
            Ok(k) => k,
            Err(f) => {
                proof {
                    if early_load_failure(files.cert, files.key) is None {
                        assert(f matches KeyLoadFailure::Pairing(_));
                        let e = f->Pairing_0;
                        lemma_prefix_of_concat("创建 CertifiedKey 失败: "@, e@);
                    }
                }
                return Err(config_failure_message(f));
            },
        };
        let domains: Vec<String> = if cert_config.domains.len() == 0 {
            let d = String::from_str("default");
            let v: Vec<String> = vec![d];
            assert(texts(v@) =~= seq!["default"@]);
            v
        } else {
            let v = cert_config.domains.clone();
            assert(texts(v@) =~= texts(cert_config.domains@)) by {
                assert forall|i: int| 0 <= i < v@.len() implies v@[i]@ == cert_config.domains@[i]@ by {
                    assert(cloned::<String>(cert_config.domains@[i], v@[i]));
                }
            }
            v
        };
        let resolver = match Self::resolver_for(&domains, &key) {
            Ok(res) => res,
            Err(e) => return Err(e),
        };
        let resolver = Arc::new(resolver);
        let mut config = match &files.ca {
            Some(ca) => match config_verifying_clients(ca, &resolver) {
                Ok(c) => c,
                Err(e) => return Err(e),
            },
            None => server_config_without_client_auth(share(&resolver)),
        };
        set_alpn_protocols(&mut config, offered_alpn_protocols());
        Ok(RustlsCertManager { sni_resolver: resolver, server_config: Arc::new(config), domains })
    }
}

} // verus!

verus! {

/// The stem of a file name whose extension is `pem` (as `Path::extension`
/// reads it: the stem before the last dot must not be empty).
pub open spec fn pem_stem(name: Seq<char>) -> Option<Seq<char>> {
    if name.len() > 4 && spec_ends_with(name, ".pem"@) {
        Some(name.subrange(0, name.len() - 4))
    } else {
        None
    }
}

/// The key file name that goes with a certificate for `domain`.
pub open spec fn key_file_name(domain: Seq<char>) -> Seq<char> {
    domain + "-key.pem"@
}

/// `name` is one of the listed file names.
pub open spec fn listed(names: Seq<String>, name: Seq<char>) -> bool {
    exists|i: int| 0 <= i < names.len() && (#[trigger] names[i])@ == name
}

/// The domain that a directory entry named `name` holds a certificate for:
/// a `.pem` file whose stem is not a key file's (`-key`), contains a dot,
/// and has its key file listed beside it.
pub open spec fn certificate_domain(name: Seq<char>, names: Seq<String>) -> Option<Seq<char>> {
    match pem_stem(name) {
        Some(stem) => if !spec_ends_with(stem, "-key"@) && stem.contains('.') && listed(names, key_file_name(stem)) {
            Some(stem)
        } else {
            None
        },
        None => None,
    }
}

/// A file name joined to a directory path as `Path::join` does.
pub open spec fn join_path(dir: Seq<char>, name: Seq<char>) -> Seq<char> {
    if dir.len() == 0 {
        name
    } else if dir.last() == '/' {
        dir + name
    } else {
        dir + "/"@ + name
    }
}

/// The certificates found among the first `k` listed names: for each, its
/// domain, certificate path and key path.
pub open spec fn certificates_in(dir: Seq<char>, names: Seq<String>, k: int) -> Seq<(Seq<char>, Seq<char>, Seq<char>)>
    decreases k,
{
    if k <= 0 || k > names.len() {
        seq![]
    } else {
        let prev = certificates_in(dir, names, k - 1);
        let name = names[k - 1]@;
        match certificate_domain(name, names) {
            Some(d) => prev.push((d, join_path(dir, name), join_path(dir, key_file_name(d)))),
            None => prev,
        }
    }
}

/// A certificate found in a directory.
pub struct DirCertificate {
    /// The domain (the file's stem).
    pub domain: String,
    /// The certificate file.
    pub cert_path: String,
    /// Its key file.
    pub key_path: String,
}

/// A found certificate as text.
pub open spec fn dir_certificate_view(c: DirCertificate) -> (Seq<char>, Seq<char>, Seq<char>) {
    (c.domain@, c.cert_path@, c.key_path@)
}

/// Whether `name` is among `names`.
fn name_listed(names: &Vec<String>, name: &str) -> (r: bool)
    ensures
        r == listed(names@, name@),
{
    let mut i: usize = 0;
    while i < names.len()
        invariant
            i <= names.len(),
            forall|j: int| 0 <= j < i ==> (#[trigger] names@[j])@ != name@,
        decreases names.len() - i,
    {
        if crate::common::text::str_eq(names[i].as_str(), name) {
            return true;
        }
        i = i + 1;
    }
    false
}

/// `Path::join` of a directory and a file name.
fn join(dir: &str, name: &str) -> (r: String)
    ensures
        r@ == join_path(dir@, name@),
{
    let n = dir.unicode_len();
    if n == 0 {
        String::from_str(name)
    } else if dir.get_char(n - 1) == '/' {
        concat(dir, name)
    } else {
        let with_sep = concat(dir, "/");
        let r = concat(with_sep.as_str(), name);
        r
    }
}

/// The domain a listed name holds a certificate for, if any.
fn domain_of_entry(name: &str, names: &Vec<String>) -> (r: Option<String>)
    ensures
        match r {
            Some(d) => certificate_domain(name@, names@) == Some(d@),
            None => certificate_domain(name@, names@) is None,
        },
{
    let n = name.unicode_len();
    if !(n > 4 && str_ends_with(name, ".pem")) {
        return None;
    }
    let stem = str_prefix(name, n - 4);
    if str_ends_with(stem, "-key") {
        return None;
    }
    if !str_contains_char(stem, '.') {
        return None;
    }
    let key_name = concat(stem, "-key.pem");
    if !name_listed(names, key_name.as_str()) {
        return None;
    }
    Some(String::from_str(stem))
}

impl RustlsCertManager {
    /// The certificates in a directory, given its file names: every `.pem`
    /// file, other than a key file, whose stem holds a dot (the domain) and
    /// whose key file `<domain>-key.pem` is listed beside it. They come in the
    /// order of the listing.
    pub fn certificates_in_dir(cert_dir: &str, names: &Vec<String>) -> (r: Vec<DirCertificate>)
        ensures
            r@.map_values(|c: DirCertificate| dir_certificate_view(c)) == certificates_in(cert_dir@, names@, names@.len() as int),
    {
        let mut out: Vec<DirCertificate> = Vec::new();
        let mut i: usize = 0;
        while i < names.len()
            invariant
                i <= names.len(),
                out@.map_values(|c: DirCertificate| dir_certificate_view(c)) == certificates_in(cert_dir@, names@, i as int),
            decreases names.len() - i,
        {
            let name = names[i].as_str();
            match domain_of_entry(name, names) {
                Some(domain) => {
                    let cert_path = join(cert_dir, name);
                    let key_name = concat(domain.as_str(), "-key.pem");
                    let key_path = join(cert_dir, key_name.as_str());
                    let ghost before = out@;
                    out.push(DirCertificate { domain, cert_path, key_path });
                    assert(out@.map_values(|c: DirCertificate| dir_certificate_view(c)) =~= before.map_values(
                        |c: DirCertificate| dir_certificate_view(c),
                    ).push(dir_certificate_view(out@[before.len() as int])));
                },
                None => {},
            }
            i = i + 1;
        }
        out
    }
}

} // verus!

verus! {

/// The contents of a found certificate's files, as read by the caller.
pub struct DirCertificateContents {
    /// The domain.
    pub domain: String,
    /// The key file's path (for the message when it holds no key).
    pub key_path: String,
    /// The certificate file's bytes, or the read error's text.
    pub cert: Result<Vec<u8>, String>,
    /// The key file's bytes, or the read error's text.
    pub key: Result<Vec<u8>, String>,
}

/// The message `from_dir_contents` gives for a loading failure of `c`.
pub open spec fn dir_failure_text(f: (int, Seq<char>), c: DirCertificateContents) -> Seq<char> {
    if f.0 == 0 {
        "读取证书文件失败: "@ + f.1
    } else if f.0 == 1 {
        "解析证书失败: "@ + f.1
    } else if f.0 == 2 {
        "读取私钥文件失败: "@ + f.1
    } else if f.0 == 3 {
        "解析私钥失败: "@ + f.1
    } else if f.0 == 4 {
        "未找到私钥: "@ + c.key_path@
    } else if f.0 == 5 {
        "证书为空: "@ + c.domain@
    } else {
        "创建 CertifiedKey 失败: "@ + f.1
    }
}

/// The message `from_dir_contents` gives for a loading failure of `c`.
fn dir_failure_message(f: KeyLoadFailure, c: &DirCertificateContents) -> (r: String)
    ensures
        r@ == dir_failure_text(failure_view(f), *c),
{
    match f {
        KeyLoadFailure::CertRead(e) => concat("读取证书文件失败: ", e.as_str()),
        KeyLoadFailure::CertParse(e) => concat("解析证书失败: ", e.as_str()),
        KeyLoadFailure::KeyRead(e) => concat("读取私钥文件失败: ", e.as_str()),
        KeyLoadFailure::KeyParse(e) => concat("解析私钥失败: ", e.as_str()),
        KeyLoadFailure::NoKey => concat("未找到私钥: ", c.key_path.as_str()),
        KeyLoadFailure::NoCertificate => concat("证书为空: ", c.domain.as_str()),
        KeyLoadFailure::Pairing(e) => concat("创建 CertifiedKey 失败: ", e.as_str()),
    }
}

/// The first failure, read off the file contents alone, among the
/// certificates from index `i` on.
pub open spec fn first_dir_failure(cs: Seq<DirCertificateContents>, i: int) -> Option<Seq<char>>
    decreases cs.len() - i,
{
    if i < 0 || i >= cs.len() {
        None
    } else {
        match early_load_failure(cs[i].cert, cs[i].key) {
            Some(f) => Some(dir_failure_text(f, cs[i])),
            None => first_dir_failure(cs, i + 1),
        }
    }
}

/// A failure that only rustls decides: pairing a chain with its key, or
/// installing it for its domain.
pub open spec fn rustls_refusal(s: Seq<char>) -> bool {
    ||| crate::common::text::spec_starts_with(s, "创建 CertifiedKey 失败: "@)
    ||| crate::common::text::spec_starts_with(s, "添加证书到 SNI 解析器失败: "@)
}

/// The domains of found certificates, as text.
pub open spec fn dir_domains(cs: Seq<DirCertificateContents>) -> Seq<Seq<char>> {
    cs.map_values(|c: DirCertificateContents| c.domain@)
}

impl RustlsCertManager {
    /// Loads every certificate found in a directory (see
    /// `certificates_in_dir`), given the contents of their files, into one
    /// SNI resolver; each serves its own domain. No client certificate is
    /// asked; the handshake offers HTTP/2 and HTTP/1.1.
    ///
    /// With no certificate at all, that is the error. Otherwise the first
    /// failure found in the file contents is reported as it stands, unless
    /// rustls refused an earlier certificate or domain first.
    pub fn from_dir_contents(certs: &Vec<DirCertificateContents>) -> (r: Result<Self, String>)
        ensures
            certs@.len() == 0 ==> (r matches Err(s) && s@ == "证书目录中没有找到有效的证书"@),
            certs@.len() > 0 ==> match first_dir_failure(certs@, 0) {
                Some(m) => (r matches Err(s) && (s@ == m || rustls_refusal(s@))),
                None => match r {
                    Ok(m) => m.domain_list() == dir_domains(certs@) && m.well_formed(),
                    Err(s) => rustls_refusal(s@),
                },
            },
    {
        if certs.len() == 0 {
            return Err(String::from_str("证书目录中没有找到有效的证书"));
        }
        let provider = ring_provider();
        let mut resolver = new_sni_resolver();
        let mut domains: Vec<String> = Vec::new();
        let mut i: usize = 0;
        while i < certs.len()
            invariant
                i <= certs.len(),
                certs@.len() > 0,
                first_dir_failure(certs@, 0) == first_dir_failure(certs@, i as int),
                texts(domains@) == dir_domains(certs@).take(i as int),
                sni_names(resolver) == names_of(texts(domains@)),
            decreases certs.len() - i,
        {
            let c = &certs[i];
            let key = match load_certified_key(&c.cert, &c.key, &provider) {
                Ok(k) => k,
                Err(f) => {
                    proof {
                        if early_load_failure(c.cert, c.key) is None {
                            let e = f->Pairing_0;
                            lemma_prefix_of_concat("创建 CertifiedKey 失败: "@, e@);
                        }
                    }
                    return Err(dir_failure_message(f, c));
                },
            };
            match sni_resolver_add(&mut resolver, c.domain.as_str(), key) {
                Ok(()) => {},
                Err(e) => {
                    let s = concat("添加证书到 SNI 解析器失败: ", e.as_str());
                    proof {
                        lemma_prefix_of_concat("添加证书到 SNI 解析器失败: "@, e@);
                    }
                    return Err(s);
                },
            }
            let ghost before = domains@;
            domains.push(c.domain.clone());
            proof {
                lemma_names_of_push(texts(before), c.domain@);
                assert(texts(domains@) =~= texts(before).push(c.domain@));
                assert(dir_domains(certs@).take(i + 1) =~= dir_domains(certs@).take(i as int).push(c.domain@));
            }
            i = i + 1;
        }
        proof {
            assert(dir_domains(certs@).take(i as int) =~= dir_domains(certs@));
        }
        let resolver = Arc::new(resolver);
        let mut config = server_config_without_client_auth(share(&resolver));
        set_alpn_protocols(&mut config, offered_alpn_protocols());
        Ok(RustlsCertManager { sni_resolver: resolver, server_config: Arc::new(config), domains })
    }
}

} // verus!

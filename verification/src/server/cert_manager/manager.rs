//! The certificate manager: one rustls certificate per service, following
//! the port mode. On a shared port gRPC and HTTP use one certificate; on
//! separated ports each service has its own (HTTP may have none).

use std::sync::Arc;

use rustls::server::ServerConfig;
use vstd::prelude::*;

use super::config::{spec_grpc_cert, spec_http_cert, CertConfig, CertManagerConfig};
use super::rustls_cert::{
    ca_failure, config_failure_text, early_load_failure, effective_domains, late_config_failure,
    CertFileContents, RustlsCertManager,
};
use crate::common::order::{insert_sorted_unique, strictly_sorted};
use crate::common::text::texts;

verus! {

/// The contents of the certificate files a `CertManagerConfig` names, one
/// entry per configured certificate, as read by the caller.
pub struct CertificateFiles {
    /// Files of the gRPC certificate (separated ports).
    pub grpc: Option<CertFileContents>,
    /// Files of the HTTP certificate (separated ports).
    pub http: Option<CertFileContents>,
    /// Files of the shared certificate (shared port).
    pub shared: Option<CertFileContents>,
}

/// File contents are given for a configured certificate, with a CA file
/// exactly when it names one.
pub open spec fn contents_for(cert: Option<CertConfig>, files: Option<CertFileContents>) -> bool {
    match cert {
        Some(c) => files matches Some(f) && (c.ca_path is Some <==> f.ca is Some),
        None => true,
    }
}

/// File contents are given for every certificate the mode uses.
pub open spec fn files_for(config: CertManagerConfig, files: CertificateFiles) -> bool {
    if config.separated_mode {
        contents_for(config.grpc_cert, files.grpc) && contents_for(config.http_cert, files.http)
    } else {
        contents_for(config.shared_cert, files.shared)
    }
}

/// `s` is a message `RustlsCertManager::from_config` can fail with on these
/// files.
pub open spec fn possible_load_failure(f: CertFileContents, s: Seq<char>) -> bool {
    match early_load_failure(f.cert, f.key) {
        Some(e) => s == config_failure_text(e),
        None => late_config_failure(s, f.ca),
    }
}

/// `m` is what `RustlsCertManager::from_config` can give for this
/// certificate and these files.
pub open spec fn loaded_from(m: RustlsCertManager, c: CertConfig, f: CertFileContents) -> bool {
    &&& early_load_failure(f.cert, f.key) is None
    &&& ca_failure(f.ca) is None
    &&& m.domain_list() == effective_domains(c.domains@)
    &&& m.well_formed()
}

/// A slot holds a certificate exactly when one is configured, loaded from its
/// configuration and files.
pub open spec fn slot_loaded(
    slot: Option<RustlsCertManager>,
    cert: Option<CertConfig>,
    files: Option<CertFileContents>,
) -> bool {
    match cert {
        Some(c) => slot matches Some(m) && loaded_from(m, c, files.unwrap()),
        None => slot is None,
    }
}

/// The domains of a slot.
pub open spec fn slot_domains(slot: Option<RustlsCertManager>) -> Set<Seq<char>> {
    match slot {
        Some(m) => m.domain_list().to_set(),
        None => Set::empty(),
    }
}

/// The configured certificate has a CA, that is, client certificates are
/// verified with it.
pub open spec fn has_ca(cert: Option<CertConfig>) -> bool {
    cert matches Some(c) && c.ca_path is Some
}

/// Certificates loaded for the services of a `CertManagerConfig`.
pub struct CertificateManager {
    config: CertManagerConfig,
    grpc_manager: Option<RustlsCertManager>,
    http_manager: Option<RustlsCertManager>,
    shared_manager: Option<RustlsCertManager>,
}

impl CertificateManager {
    /// The configuration it was made from.
    pub closed spec fn spec_config(&self) -> CertManagerConfig {
        self.config
    }

    /// The gRPC certificate (separated ports).
    pub closed spec fn grpc_slot(&self) -> Option<RustlsCertManager> {
        self.grpc_manager
    }

    /// The HTTP certificate (separated ports).
    pub closed spec fn http_slot(&self) -> Option<RustlsCertManager> {
        self.http_manager
    }

    /// The shared certificate (shared port).
    pub closed spec fn shared_slot(&self) -> Option<RustlsCertManager> {
        self.shared_manager
    }

    /// The certificate that serves gRPC.
    pub open spec fn grpc_server(&self) -> Option<RustlsCertManager> {
        if self.spec_config().separated_mode {
            self.grpc_slot()
        } else {
            self.shared_slot()
        }
    }

    /// The certificate that serves HTTP.
    pub open spec fn http_server(&self) -> Option<RustlsCertManager> {
        if self.spec_config().separated_mode {
            self.http_slot()
        } else {
            self.shared_slot()
        }
    }

    /// Every domain of every loaded certificate.
    pub open spec fn all_domains(&self) -> Set<Seq<char>> {
        slot_domains(self.shared_slot()) + slot_domains(self.grpc_slot()) + slot_domains(self.http_slot())
    }

    /// Client certificates are required somewhere.
    pub open spec fn spec_mtls_enabled(&self) -> bool {
        if self.spec_config().separated_mode {
            has_ca(self.spec_config().grpc_cert) || has_ca(self.spec_config().http_cert)
        } else {
            has_ca(self.spec_config().shared_cert)
        }
    }

    /// Loads the certificates the mode uses, given their files' contents: on
    /// separated ports the gRPC certificate first, then the HTTP one; on a
    /// shared port the shared one. A certificate that is not configured is
    /// not loaded, and the first failure stops the rest.
    pub fn from_config(config: CertManagerConfig, files: &CertificateFiles) -> (r: Result<Self, String>)
        requires
            files_for(config, *files),
        ensures
            match r {
                Ok(m) => {
                    &&& m.spec_config() == config
                    &&& if config.separated_mode {
                        &&& slot_loaded(m.grpc_slot(), config.grpc_cert, files.grpc)
                        &&& slot_loaded(m.http_slot(), config.http_cert, files.http)
                        &&& m.shared_slot() is None
                    } else {
                        &&& slot_loaded(m.shared_slot(), config.shared_cert, files.shared)
                        &&& m.grpc_slot() is None
                        &&& m.http_slot() is None
                    }
                },
                Err(s) => if config.separated_mode {
                    ||| (config.grpc_cert is Some && possible_load_failure(files.grpc.unwrap(), s@))
                    ||| (config.http_cert is Some && possible_load_failure(files.http.unwrap(), s@))
                } else {
                    config.shared_cert is Some && possible_load_failure(files.shared.unwrap(), s@)
                },
            },
            config.separated_mode && config.grpc_cert is Some ==> match early_load_failure(
                files.grpc.unwrap().cert,
                files.grpc.unwrap().key,
            ) {
                Some(e) => r matches Err(s) && s@ == config_failure_text(e),
                None => true,
            },
            !config.separated_mode && config.shared_cert is Some ==> match early_load_failure(
                files.shared.unwrap().cert,
                files.shared.unwrap().key,
            ) {
                Some(e) => r matches Err(s) && s@ == config_failure_text(e),
                None => true,
            },
    {
        if config.separated_mode {
            let grpc_manager = match &config.grpc_cert {
                Some(c) => {
                    let f = files.grpc.as_ref().unwrap();
                    match RustlsCertManager::from_config(c, f) {
                        Ok(m) => Some(m),
                        Err(e) => return Err(e),
                    }
                },
                None => None,
            };
            let http_manager = match &config.http_cert {
                Some(c) => {
                    let f = files.http.as_ref().unwrap();
                    match RustlsCertManager::from_config(c, f) {
                        Ok(m) => Some(m),
                        Err(e) => return Err(e),
                    }
                },
                None => None,
            };
            Ok(CertificateManager { config, grpc_manager, http_manager, shared_manager: None })
        } else {
            let shared_manager = match &config.shared_cert {
                Some(c) => {
                    let f = files.shared.as_ref().unwrap();
                    match RustlsCertManager::from_config(c, f) {
                        Ok(m) => Some(m),
                        Err(e) => return Err(e),
                    }
                },
                None => None,
            };
            Ok(CertificateManager { config, grpc_manager: None, http_manager: None, shared_manager })
        }
    }

    /// The server configuration for gRPC, which must have a certificate.
    pub fn get_grpc_server_config(&self) -> (r: Arc<ServerConfig>)
        requires
            self.grpc_server() is Some,
        ensures
            *r == self.grpc_server().unwrap().config(),
    {
        if self.config.separated_mode {
            self.grpc_manager.as_ref().unwrap().get_server_config()
        } else {
            self.shared_manager.as_ref().unwrap().get_server_config()
        }
    }

    /// The server configuration for HTTP: the shared certificate's on a
    /// shared port, the HTTP certificate's on separated ports; none without a
    /// certificate (plain HTTP/1.1 is then allowed).
    pub fn get_http_server_config(&self) -> (r: Option<Arc<ServerConfig>>)
        ensures
            match self.http_server() {
                Some(m) => r matches Some(c) && *c == m.config(),
                None => r is None,
            },
    {
        let manager = if self.config.separated_mode {
            &self.http_manager
        } else {
            &self.shared_manager
        };
        match manager {
            Some(m) => Some(m.get_server_config()),
            None => None,
        }
    }

    /// Whether gRPC has a certificate.
    pub fn has_grpc_cert(&self) -> (r: bool)
        ensures
            r == self.grpc_server() is Some,
    {
        if self.config.separated_mode {
            self.grpc_manager.is_some()
        } else {
            self.shared_manager.is_some()
        }
    }

    /// Whether HTTP has a certificate.
    pub fn has_http_cert(&self) -> (r: bool)
        ensures
            r == self.http_server() is Some,
    {
        if self.config.separated_mode {
            self.http_manager.is_some()
        } else {
            self.shared_manager.is_some()
        }
    }

    /// The configuration.
    pub fn get_config(&self) -> (r: &CertManagerConfig)
        ensures
            *r == self.spec_config(),
    {
        &self.config
    }

    /// Every domain served, sorted, each once.
    pub fn get_domains(&self) -> (r: Vec<String>)
        ensures
            strictly_sorted(texts(r@)),
            texts(r@).to_set() == self.all_domains(),
    {
        let mut domains: Vec<String> = Vec::new();
        assert(texts(domains@).to_set() =~= Set::<Seq<char>>::empty());
        add_domains(&mut domains, &self.shared_manager);
        add_domains(&mut domains, &self.grpc_manager);
        add_domains(&mut domains, &self.http_manager);
        assert(texts(domains@).to_set() =~= self.all_domains());
        domains
    }

    /// Whether the mode is separated ports.
    pub fn is_separated_mode(&self) -> (r: bool)
        ensures
            r == self.spec_config().separated_mode,
    {
        self.config.separated_mode
    }

    /// Whether a path is exempt from client certificates. In mTLS mode every
    /// path requires one, so this answers as `is_mtls_enabled` does whatever
    /// the path.
    pub fn is_mtls_whitelisted(&self, path: &str) -> (r: bool)
        ensures
            r == self.spec_mtls_enabled(),
    {
        self.is_mtls_enabled()
    }

    /// Whether client certificates are required: on separated ports when the
    /// gRPC or the HTTP certificate has a CA, on a shared port when the shared
    /// certificate has one.
    pub fn is_mtls_enabled(&self) -> (r: bool)
        ensures
            r == self.spec_mtls_enabled(),
    {
        if self.config.separated_mode {
            ca_configured(&self.config.grpc_cert) || ca_configured(&self.config.http_cert)
        } else {
            ca_configured(&self.config.shared_cert)
        }
    }

    /// Whether gRPC requires client certificates.
    pub fn is_grpc_mtls_enabled(&self) -> (r: bool)
        ensures
            r == has_ca(spec_grpc_cert(self.spec_config())),
    {
        if self.config.separated_mode {
            ca_configured(&self.config.grpc_cert)
        } else {
            ca_configured(&self.config.shared_cert)
        }
    }

    /// Whether HTTP requires client certificates.
    pub fn is_http_mtls_enabled(&self) -> (r: bool)
        ensures
            r == has_ca(spec_http_cert(self.spec_config())),
    {
        if self.config.separated_mode {
            ca_configured(&self.config.http_cert)
        } else {
            ca_configured(&self.config.shared_cert)
        }
    }
}

/// Whether a configured certificate has a CA.
fn ca_configured(cert: &Option<CertConfig>) -> (r: bool)
    ensures
        r == has_ca(*cert),
{
    match cert {
        Some(c) => c.ca_path.is_some(),
        None => false,
    }
}

/// Adds the domains of a slot to a sorted list without repeats.
fn add_domains(out: &mut Vec<String>, slot: &Option<RustlsCertManager>)
    requires
        strictly_sorted(texts(old(out)@)),
    ensures
        strictly_sorted(texts(final(out)@)),
        texts(final(out)@).to_set() == texts(old(out)@).to_set() + slot_domains(*slot),
{
    match slot {
        Some(m) => {
            let ds = m.get_domains();
            let mut i: usize = 0;
            while i < ds.len()
                invariant
                    i <= ds.len(),
                    texts(ds@) == m.domain_list(),
                    strictly_sorted(texts(out@)),
                    texts(out@).to_set() == texts(old(out)@).to_set() + texts(ds@).take(i as int).to_set(),
                decreases ds.len() - i,
            {
                let d = ds[i].clone();
                let ghost before = texts(out@).to_set();
                insert_sorted_unique(out, d);
                proof {
                    let t = texts(ds@);
                    assert(t.take(i as int).push(t[i as int]) =~= t.take(i + 1));
                    t.take(i as int).lemma_push_to_set_commute(t[i as int]);
                    assert(texts(out@).to_set() =~= texts(old(out)@).to_set() + t.take(i + 1).to_set());
                }
                i = i + 1;
            }
            assert(texts(ds@).take(i as int) =~= texts(ds@));
        },
        None => {
            assert(texts(out@).to_set() =~= texts(out@).to_set() + Set::<Seq<char>>::empty());
        },
    }
}

/// On a shared port one certificate serves both gRPC and HTTP.
pub proof fn lemma_shared_port_one_certificate(m: CertificateManager)
    requires
        !m.spec_config().separated_mode,
    ensures
        m.grpc_server() == m.http_server(),
{
}

/// mTLS is on exactly when gRPC or HTTP has it on.
pub proof fn lemma_mtls_enabled_iff_a_service_has_it(m: CertificateManager)
    ensures
        m.spec_mtls_enabled() == (has_ca(spec_grpc_cert(m.spec_config())) || has_ca(spec_http_cert(m.spec_config()))),
{
}

} // verus!

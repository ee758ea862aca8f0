//! Builder of the certificate manager settings (development, strict, ACME
//! and mTLS options), and the path and expiry rules those settings drive.

use vstd::prelude::*;
use crate::common::text::{
    spec_ends_with_slash_star, spec_starts_with, str_ends_with_slash_star, str_eq, str_prefix,
    str_starts_with,
};

verus! {

/// Settings assembled by `CertManagerBuilder`.
#[derive(Debug, Clone)]
pub struct CertManagerConfig {
    /// Development mode: certificates are generated.
    pub development_mode: bool,
    /// Certificate path (strict mode).
    pub cert_path: Option<String>,
    /// Private key path (strict mode).
    pub key_path: Option<String>,
    /// CA certificate path.
    pub ca_path: Option<String>,
    /// Validity of generated certificates, in days.
    pub validity_days: u32,
    /// Host names the certificate covers.
    pub hostnames: Vec<String>,
    /// Automatic certificates through ACME.
    pub acme_enabled: bool,
    /// Use the production ACME directory.
    pub acme_production: bool,
    /// ACME account e-mail.
    pub acme_email: Option<String>,
    /// Cloudflare API token for DNS challenges.
    pub cloudflare_api_token: Option<String>,
    /// Renew ACME certificates this many days before expiry.
    pub acme_renewal_days: u32,
    /// Directory where certificates are stored.
    pub acme_cert_dir: Option<String>,
    /// Mutual TLS.
    pub mtls_enabled: bool,
    /// Client certificate path.
    pub client_cert_path: Option<String>,
    /// Client private key path.
    pub client_key_path: Option<String>,
    /// Client CA path.
    pub client_ca_path: Option<String>,
    /// mTLS mode: `self_signed` or `acme_mixed`.
    pub mtls_mode: Option<String>,
    /// Generate the client certificate.
    pub auto_generate_client_cert: bool,
    /// Subject of the generated client certificate.
    pub client_cert_subject: Option<String>,
    /// Periodic certificate refresh.
    pub auto_refresh_enabled: bool,
    /// Seconds between refresh checks.
    pub refresh_check_interval: u64,
    /// Regenerate certificates even when still valid.
    pub force_cert_rotation: bool,
    /// Paths exempt from client certificates (`/x/*` matches a prefix).
    pub mtls_whitelist_paths: Vec<String>,
}

/// The settings are the defaults: all switches off, no paths, no host names
/// or whitelisted paths, and zero for the numbers.
pub open spec fn is_default_config(c: CertManagerConfig) -> bool {
    &&& !c.development_mode
    &&& c.cert_path is None
    &&& c.key_path is None
    &&& c.ca_path is None
    &&& c.validity_days == 0
    &&& c.hostnames@.len() == 0
    &&& !c.acme_enabled
    &&& !c.acme_production
    &&& c.acme_email is None
    &&& c.cloudflare_api_token is None
    &&& c.acme_renewal_days == 0
    &&& c.acme_cert_dir is None
    &&& !c.mtls_enabled
    &&& c.client_cert_path is None
    &&& c.client_key_path is None
    &&& c.client_ca_path is None
    &&& c.mtls_mode is None
    &&& !c.auto_generate_client_cert
    &&& c.client_cert_subject is None
    &&& !c.auto_refresh_enabled
    &&& c.refresh_check_interval == 0
    &&& !c.force_cert_rotation
    &&& c.mtls_whitelist_paths@.len() == 0
}

impl Default for CertManagerConfig {
    fn default() -> (r: Self)
        ensures
            is_default_config(r),
    {
        CertManagerConfig {
            development_mode: false,
            cert_path: None,
            key_path: None,
            ca_path: None,
            validity_days: 0,
            hostnames: Vec::new(),
            acme_enabled: false,
            acme_production: false,
            acme_email: None,
            cloudflare_api_token: None,
            acme_renewal_days: 0,
            acme_cert_dir: None,
            mtls_enabled: false,
            client_cert_path: None,
            client_key_path: None,
            client_ca_path: None,
            mtls_mode: None,
            auto_generate_client_cert: false,
            client_cert_subject: None,
            auto_refresh_enabled: false,
            refresh_check_interval: 0,
            force_cert_rotation: false,
            mtls_whitelist_paths: Vec::new(),
        }
    }
}

/// Builds `CertManagerConfig` step by step.
pub struct CertManagerBuilder {
    config: CertManagerConfig,
}

impl CertManagerBuilder {
    /// The settings built so far.
    pub closed spec fn spec_config(&self) -> CertManagerConfig {
        self.config
    }
}

impl Default for CertManagerBuilder {
    fn default() -> (r: Self)
        ensures
            is_default_config(r.spec_config()),
    {
        CertManagerBuilder { config: CertManagerConfig::default() }
    }
}

impl CertManagerBuilder {
    /// A builder holding the default settings.
    pub fn new() -> (r: Self)
        ensures
            is_default_config(r.spec_config()),
    {
        Self::default()
    }

    /// Sets development mode (generated certificates).
    pub fn development_mode(self, enabled: bool) -> (r: Self)
        ensures
            r.spec_config() == (CertManagerConfig { development_mode: enabled, ..self.spec_config() }),
    {
        let mut b = self;
        b.config.development_mode = enabled;
        b
    }

    /// Sets the certificate path (strict mode).
    pub fn with_cert_path(self, path: &str) -> (r: Self)
        ensures
            r.spec_config() == (CertManagerConfig { cert_path: r.spec_config().cert_path, ..self.spec_config() }),
            r.spec_config().cert_path matches Some(v) && v@ == path@,
    {
        let mut b = self;
        b.config.cert_path = Some(String::from_str(path));
        b
    }

    /// Sets the private key path (strict mode).
    pub fn with_key_path(self, path: &str) -> (r: Self)
        ensures
            r.spec_config() == (CertManagerConfig { key_path: r.spec_config().key_path, ..self.spec_config() }),
            r.spec_config().key_path matches Some(v) && v@ == path@,
    {
        let mut b = self;
        b.config.key_path = Some(String::from_str(path));
        b
    }

    /// Sets the CA certificate path.
    pub fn with_ca_path(self, path: &str) -> (r: Self)
        ensures
            r.spec_config() == (CertManagerConfig { ca_path: r.spec_config().ca_path, ..self.spec_config() }),
            r.spec_config().ca_path matches Some(v) && v@ == path@,
    {
        let mut b = self;
        b.config.ca_path = Some(String::from_str(path));
        b
    }

    /// Sets the validity of generated certificates.
    pub fn with_validity_days(self, days: u32) -> (r: Self)
        ensures
            r.spec_config() == (CertManagerConfig { validity_days: days, ..self.spec_config() }),
    {
        let mut b = self;
        b.config.validity_days = days;
        b
    }

    /// Adds a host name.
    pub fn add_hostname(self, hostname: &str) -> (r: Self)
        ensures
            r.spec_config() == (CertManagerConfig { hostnames: r.spec_config().hostnames, ..self.spec_config() }),
            r.spec_config().hostnames@.len() == self.spec_config().hostnames@.len() + 1,
            r.spec_config().hostnames@.drop_last() == self.spec_config().hostnames@,
            r.spec_config().hostnames@.last()@ == hostname@,
    {
        let mut b = self;
        b.config.hostnames.push(String::from_str(hostname));
        proof { assert(b.config.hostnames@.drop_last() =~= self.config.hostnames@); }
        b
    }

    /// Replaces the host names.
    pub fn with_hostnames(self, hostnames: Vec<String>) -> (r: Self)
        ensures
            r.spec_config() == (CertManagerConfig { hostnames: hostnames, ..self.spec_config() }),
    {
        let mut b = self;
        b.config.hostnames = hostnames;
        b
    }

    /// Enables ACME certificates.
    pub fn enable_acme(self, enabled: bool) -> (r: Self)
        ensures
            r.spec_config() == (CertManagerConfig { acme_enabled: enabled, ..self.spec_config() }),
    {
        let mut b = self;
        b.config.acme_enabled = enabled;
        b
    }

    /// Chooses the production ACME directory.
    pub fn with_acme_production(self, production: bool) -> (r: Self)
        ensures
            r.spec_config() == (CertManagerConfig { acme_production: production, ..self.spec_config() }),
    {
        let mut b = self;
        b.config.acme_production = production;
        b
    }

    /// Sets the ACME account e-mail.
    pub fn with_acme_email(self, email: &str) -> (r: Self)
        ensures
            r.spec_config() == (CertManagerConfig { acme_email: r.spec_config().acme_email, ..self.spec_config() }),
            r.spec_config().acme_email matches Some(v) && v@ == email@,
    {
        let mut b = self;
        b.config.acme_email = Some(String::from_str(email));
        b
    }

    /// Sets the Cloudflare API token.
    pub fn with_cloudflare_api_token(self, token: &str) -> (r: Self)
        ensures
            r.spec_config() == (CertManagerConfig { cloudflare_api_token: r.spec_config().cloudflare_api_token, ..self.spec_config() }),
            r.spec_config().cloudflare_api_token matches Some(v) && v@ == token@,
    {
        let mut b = self;
        b.config.cloudflare_api_token = Some(String::from_str(token));
        b
    }

    /// Sets the renewal threshold in days.
    pub fn with_acme_renewal_days(self, days: u32) -> (r: Self)
        ensures
            r.spec_config() == (CertManagerConfig { acme_renewal_days: days, ..self.spec_config() }),
    {
        let mut b = self;
        b.config.acme_renewal_days = days;
        b
    }

    /// Sets the certificate directory.
    pub fn with_acme_cert_dir(self, dir: &str) -> (r: Self)
        ensures
            r.spec_config() == (CertManagerConfig { acme_cert_dir: r.spec_config().acme_cert_dir, ..self.spec_config() }),
            r.spec_config().acme_cert_dir matches Some(v) && v@ == dir@,
    {
        let mut b = self;
        b.config.acme_cert_dir = Some(String::from_str(dir));
        b
    }

    /// Enables mutual TLS.
    pub fn enable_mtls(self, enabled: bool) -> (r: Self)
        ensures
            r.spec_config() == (CertManagerConfig { mtls_enabled: enabled, ..self.spec_config() }),
    {
        let mut b = self;
        b.config.mtls_enabled = enabled;
        b
    }

    /// Sets the client certificate path.
    pub fn with_client_cert_path(self, path: &str) -> (r: Self)
        ensures
            r.spec_config() == (CertManagerConfig { client_cert_path: r.spec_config().client_cert_path, ..self.spec_config() }),
            r.spec_config().client_cert_path matches Some(v) && v@ == path@,
    {
        let mut b = self;
        b.config.client_cert_path = Some(String::from_str(path));
        b
    }

    /// Sets the client key path.
    pub fn with_client_key_path(self, path: &str) -> (r: Self)
        ensures
            r.spec_config() == (CertManagerConfig { client_key_path: r.spec_config().client_key_path, ..self.spec_config() }),
            r.spec_config().client_key_path matches Some(v) && v@ == path@,
    {
        let mut b = self;
        b.config.client_key_path = Some(String::from_str(path));
        b
    }

    /// Sets the client CA path.
    pub fn with_client_ca_path(self, path: &str) -> (r: Self)
        ensures
            r.spec_config() == (CertManagerConfig { client_ca_path: r.spec_config().client_ca_path, ..self.spec_config() }),
            r.spec_config().client_ca_path matches Some(v) && v@ == path@,
    {
        let mut b = self;
        b.config.client_ca_path = Some(String::from_str(path));
        b
    }

    /// Sets the mTLS mode (`self_signed` or `acme_mixed`).
    pub fn with_mtls_mode(self, mode: &str) -> (r: Self)
        ensures
            r.spec_config() == (CertManagerConfig { mtls_mode: r.spec_config().mtls_mode, ..self.spec_config() }),
            r.spec_config().mtls_mode matches Some(v) && v@ == mode@,
    {
        let mut b = self;
        b.config.mtls_mode = Some(String::from_str(mode));
        b
    }

    /// Enables client certificate generation.
    pub fn auto_generate_client_cert(self, enabled: bool) -> (r: Self)
        ensures
            r.spec_config() == (CertManagerConfig { auto_generate_client_cert: enabled, ..self.spec_config() }),
    {
        let mut b = self;
        b.config.auto_generate_client_cert = enabled;
        b
    }

    /// Sets the client certificate subject.
    pub fn with_client_cert_subject(self, subject: &str) -> (r: Self)
        ensures
            r.spec_config() == (CertManagerConfig { client_cert_subject: r.spec_config().client_cert_subject, ..self.spec_config() }),
            r.spec_config().client_cert_subject matches Some(v) && v@ == subject@,
    {
        let mut b = self;
        b.config.client_cert_subject = Some(String::from_str(subject));
        b
    }

    /// Enables periodic refresh.
    pub fn enable_auto_refresh(self, enabled: bool) -> (r: Self)
        ensures
            r.spec_config() == (CertManagerConfig { auto_refresh_enabled: enabled, ..self.spec_config() }),
    {
        let mut b = self;
        b.config.auto_refresh_enabled = enabled;
        b
    }

    /// Sets the refresh check interval in seconds.
    pub fn with_refresh_check_interval(self, interval_seconds: u64) -> (r: Self)
        ensures
            r.spec_config() == (CertManagerConfig { refresh_check_interval: interval_seconds, ..self.spec_config() }),
    {
        let mut b = self;
        b.config.refresh_check_interval = interval_seconds;
        b
    }

    /// Forces certificate rotation.
    pub fn force_cert_rotation(self, force: bool) -> (r: Self)
        ensures
            r.spec_config() == (CertManagerConfig { force_cert_rotation: force, ..self.spec_config() }),
    {
        let mut b = self;
        b.config.force_cert_rotation = force;
        b
    }

    /// Adds a path exempt from client certificates.
    pub fn add_mtls_whitelist_path(self, path: &str) -> (r: Self)
        ensures
            r.spec_config() == (CertManagerConfig { mtls_whitelist_paths: r.spec_config().mtls_whitelist_paths, ..self.spec_config() }),
            r.spec_config().mtls_whitelist_paths@.len() == self.spec_config().mtls_whitelist_paths@.len() + 1,
            r.spec_config().mtls_whitelist_paths@.drop_last() == self.spec_config().mtls_whitelist_paths@,
            r.spec_config().mtls_whitelist_paths@.last()@ == path@,
    {
        let mut b = self;
        b.config.mtls_whitelist_paths.push(String::from_str(path));
        proof { assert(b.config.mtls_whitelist_paths@.drop_last() =~= self.config.mtls_whitelist_paths@); }
        b
    }

    /// Adds several paths exempt from client certificates.
    pub fn add_mtls_whitelist_paths(self, paths: Vec<String>) -> (r: Self)
        ensures
            r.spec_config() == (CertManagerConfig { mtls_whitelist_paths: r.spec_config().mtls_whitelist_paths, ..self.spec_config() }),
            r.spec_config().mtls_whitelist_paths@ == self.spec_config().mtls_whitelist_paths@ + paths@,
    {
        let mut b = self;
        let mut i: usize = 0;
        while i < paths.len()
            invariant
                i <= paths.len(),
                b.config == (CertManagerConfig { mtls_whitelist_paths: b.config.mtls_whitelist_paths, ..self.config }),
                b.config.mtls_whitelist_paths@ =~= self.config.mtls_whitelist_paths@ + paths@.subrange(0, i as int),
            decreases paths.len() - i,
        {
            b.config.mtls_whitelist_paths.push(paths[i].clone());
            i = i + 1;
        }
        assert(paths@.subrange(0, paths@.len() as int) =~= paths@);
        b
    }

    /// The settings built.
    pub fn build_config(self) -> (r: CertManagerConfig)
        ensures
            r == self.spec_config(),
    {
        self.config
    }
}

// ---------------------------------------------------------------------------
// Rules driven by the settings
// ---------------------------------------------------------------------------

/// `path` is exempt by whitelist entry `entry`: equal to it, or, for an entry
/// ending in `/*`, starting with the entry without those two characters.
pub open spec fn entry_matches(entry: Seq<char>, path: Seq<char>) -> bool {
    path == entry || (spec_ends_with_slash_star(entry) && spec_starts_with(path, entry.subrange(0, entry.len() - 2)))
}

/// `path` is exempt from client certificates: mTLS is on and some whitelist
/// entry matches it.
pub open spec fn spec_mtls_whitelisted(c: CertManagerConfig, path: Seq<char>) -> bool {
    c.mtls_enabled && exists|i: int| 0 <= i < c.mtls_whitelist_paths@.len() && entry_matches(#[trigger] c.mtls_whitelist_paths@[i]@, path)
}

/// Whether `path` is exempt from client certificates under `config`.
pub fn is_mtls_whitelisted(config: &CertManagerConfig, path: &str) -> (r: bool)
    ensures
        r == spec_mtls_whitelisted(*config, path@),
{
    if !config.mtls_enabled {
        return false;
    }
    let list = &config.mtls_whitelist_paths;
    let mut i: usize = 0;
    while i < list.len()
        invariant
            i <= list.len(),
            list@ == config.mtls_whitelist_paths@,
            config.mtls_enabled,
            forall|j: int| 0 <= j < i ==> !entry_matches(#[trigger] list@[j]@, path@),
        decreases list.len() - i,
    {
        let entry = list[i].as_str();
        if str_eq(path, entry) {
            assert(entry_matches(config.mtls_whitelist_paths@[i as int]@, path@));
            return true;
        }
        if str_ends_with_slash_star(entry) {
            let base = str_prefix(entry, entry.unicode_len() - 2);
            if str_starts_with(path, base) {
                assert(entry_matches(config.mtls_whitelist_paths@[i as int]@, path@));
                return true;
            }
        }
        i = i + 1;
    }
    false
}

/// Whether a path must present a client certificate: mTLS is on and the path
/// is not whitelisted.
pub fn requires_mtls_auth(config: &CertManagerConfig, path: &str) -> (r: bool)
    ensures
        r == (config.mtls_enabled && !spec_mtls_whitelisted(*config, path@)),
{
    config.mtls_enabled && !is_mtls_whitelisted(config, path)
}

/// Seconds in a day.
pub open spec fn day_seconds() -> int {
    86400int
}

/// A certificate ending at `not_after` (seconds since the epoch) expires
/// within `days` of `now`.
pub open spec fn spec_expiring(not_after: Option<u64>, now: u64, days: u32) -> bool {
    match not_after {
        Some(t) => t < now + days * day_seconds(),
        None => false,
    }
}

/// Whether the certificate (if known) expires within `days` days of `now`.
pub fn is_certificate_expiring(not_after: Option<u64>, now: u64, days_threshold: u32) -> (r: bool)
    requires
        now + days_threshold * day_seconds() <= u64::MAX,
    ensures
        r == spec_expiring(not_after, now, days_threshold),
{
    match not_after {
        Some(t) => t < now + (days_threshold as u64) * 86400,
        None => false,
    }
}

/// Whether a development certificate must be regenerated: when its expiry is
/// unknown, or when it expires within three days of `now`.
pub fn should_regenerate_certificate(not_after: Option<u64>, now: u64) -> (r: bool)
    requires
        now + 3 * day_seconds() <= u64::MAX,
    ensures
        r == match not_after {
            Some(t) => t < now + 3 * day_seconds(),
            None => true,
        },
{
    match not_after {
        Some(t) => t < now + 3 * 86400,
        None => true,
    }
}

} // verus!

//! Certificate configuration for the shared-port and separated-port modes:
//! on a shared port gRPC and HTTP use one certificate; on separated ports
//! each may have its own.

use vstd::prelude::*;

use crate::common::text::concat;

verus! {

/// One certificate: its files and the domains it serves.
#[derive(Debug, Clone)]
pub struct CertConfig {
    /// Certificate file path.
    pub cert_path: String,
    /// Private key file path.
    pub key_path: String,
    /// CA certificate path, used to verify client certificates (mTLS).
    pub ca_path: Option<String>,
    /// Domains served (SNI).
    pub domains: Vec<String>,
}

/// `p` is one of the paths known to exist.
pub open spec fn path_exists(existing: Seq<String>, p: Seq<char>) -> bool {
    exists|i: int| 0 <= i < existing.len() && (#[trigger] existing[i])@ == p
}

/// Whether `p` is among `existing`.
pub fn path_listed(existing: &Vec<String>, p: &String) -> (r: bool)
    ensures
        r == path_exists(existing@, p@),
{
    let mut i: usize = 0;
    while i < existing.len()
        invariant
            i <= existing.len(),
            forall|j: int| 0 <= j < i ==> (#[trigger] existing@[j])@ != p@,
        decreases existing.len() - i,
    {
        if existing[i] == *p {
            return true;
        }
        i = i + 1;
    }
    false
}

/// Error text when a certificate file is missing, or none when all exist.
pub open spec fn spec_cert_config_error(c: CertConfig, existing: Seq<String>) -> Option<Seq<char>> {
    if !path_exists(existing, c.cert_path@) {
        Some("证书文件不存在: "@ + c.cert_path@)
    } else if !path_exists(existing, c.key_path@) {
        Some("私钥文件不存在: "@ + c.key_path@)
    } else if c.ca_path is Some && !path_exists(existing, c.ca_path.unwrap()@) {
        Some("CA 证书文件不存在: "@ + c.ca_path.unwrap()@)
    } else {
        None
    }
}

pub open spec fn result_of(e: Option<Seq<char>>, r: Result<(), String>) -> bool {
    match e {
        None => r is Ok,
        Some(m) => r matches Err(s) && s@ == m,
    }
}

impl CertConfig {
    /// A certificate from its file paths, with no CA and no domains.
    pub fn from_paths(cert_path: &str, key_path: &str) -> (r: Self)
        ensures
            r.cert_path@ == cert_path@,
            r.key_path@ == key_path@,
            r.ca_path is None,
            r.domains@.len() == 0,
    {
        CertConfig {
            cert_path: String::from_str(cert_path),
            key_path: String::from_str(key_path),
            ca_path: None,
            domains: Vec::new(),
        }
    }

    /// Replaces the domains.
    pub fn with_domains(self, domains: Vec<String>) -> (r: Self)
        ensures
            r == (CertConfig { domains, ..self }),
    {
        let mut s = self;
        s.domains = domains;
        s
    }

    /// Sets the CA certificate path.
    pub fn with_ca(self, ca_path: &str) -> (r: Self)
        ensures
            r.cert_path == self.cert_path,
            r.key_path == self.key_path,
            r.domains == self.domains,
            r.ca_path matches Some(p) && p@ == ca_path@,
    {
        let mut s = self;
        s.ca_path = Some(String::from_str(ca_path));
        s
    }

    /// Checks that the certificate, key and (if set) CA files exist, given
    /// the list of paths that do.
    pub fn validate(&self, existing: &Vec<String>) -> (r: Result<(), String>)
        ensures
            result_of(spec_cert_config_error(*self, existing@), r),
    {
        if !path_listed(existing, &self.cert_path) {
            return Err(concat("证书文件不存在: ", self.cert_path.as_str()));
        }
        if !path_listed(existing, &self.key_path) {
            return Err(concat("私钥文件不存在: ", self.key_path.as_str()));
        }
        match &self.ca_path {
            Some(ca_path) => {
                if !path_listed(existing, ca_path) {
                    return Err(concat("CA 证书文件不存在: ", ca_path.as_str()));
                }
            },
            None => {},
        }
        Ok(())
    }
}

/// Certificate configuration of the server.
#[derive(Debug, Clone)]
pub struct CertManagerConfig {
    /// Certificate shared by gRPC and HTTP (shared-port mode).
    pub shared_cert: Option<CertConfig>,
    /// gRPC certificate (separated-port mode).
    pub grpc_cert: Option<CertConfig>,
    /// HTTP certificate (separated-port mode).
    pub http_cert: Option<CertConfig>,
    /// Separated-port mode.
    pub separated_mode: bool,
}

impl Default for CertManagerConfig {
    fn default() -> (r: Self)
        ensures
            r.shared_cert is None,
            r.grpc_cert is None,
            r.http_cert is None,
            !r.separated_mode,
    {
        CertManagerConfig { shared_cert: None, grpc_cert: None, http_cert: None, separated_mode: false }
    }
}

/// Certificate used by gRPC.
pub open spec fn spec_grpc_cert(c: CertManagerConfig) -> Option<CertConfig> {
    if c.separated_mode {
        c.grpc_cert
    } else {
        c.shared_cert
    }
}

/// Certificate used by HTTP.
pub open spec fn spec_http_cert(c: CertManagerConfig) -> Option<CertConfig> {
    if c.separated_mode {
        c.http_cert
    } else {
        c.shared_cert
    }
}

pub open spec fn same_cert(r: Option<&CertConfig>, c: Option<CertConfig>) -> bool {
    match c {
        Some(x) => r matches Some(y) && *y == x,
        None => r is None,
    }
}

/// Error text of `CertManagerConfig::validate`, or none when valid.
pub open spec fn spec_manager_config_error(
    c: CertManagerConfig,
    require_grpc: bool,
    require_http: bool,
    existing: Seq<String>,
) -> Option<Seq<char>> {
    if c.separated_mode {
        if require_grpc && c.grpc_cert is None {
            Some("分端口模式下启用 gRPC 必须配置 gRPC 证书"@)
        } else if require_grpc && spec_cert_config_error(c.grpc_cert.unwrap(), existing) is Some {
            Some("gRPC 证书验证失败: "@ + spec_cert_config_error(c.grpc_cert.unwrap(), existing).unwrap())
        } else if require_http && c.http_cert is Some && spec_cert_config_error(c.http_cert.unwrap(), existing) is Some {
            Some("HTTP 证书验证失败: "@ + spec_cert_config_error(c.http_cert.unwrap(), existing).unwrap())
        } else {
            None
        }
    } else {
        if c.shared_cert is Some {
            if (require_grpc || require_http) && spec_cert_config_error(c.shared_cert.unwrap(), existing) is Some {
                Some("证书验证失败: "@ + spec_cert_config_error(c.shared_cert.unwrap(), existing).unwrap())
            } else {
                None
            }
        } else if require_grpc {
            Some("同端口模式下启用 gRPC 必须配置证书"@)
        } else {
            None
        }
    }
}

impl CertManagerConfig {
    /// Shared-port configuration: one certificate for gRPC and HTTP.
    pub fn shared(cert_config: CertConfig) -> (r: Self)
        ensures
            r == (CertManagerConfig { shared_cert: Some(cert_config), grpc_cert: None, http_cert: None, separated_mode: false }),
    {
        CertManagerConfig { shared_cert: Some(cert_config), grpc_cert: None, http_cert: None, separated_mode: false }
    }

    /// Separated-port configuration: a gRPC certificate and an optional HTTP
    /// certificate.
    pub fn separated(grpc_cert: CertConfig, http_cert: Option<CertConfig>) -> (r: Self)
        ensures
            r == (CertManagerConfig { shared_cert: None, grpc_cert: Some(grpc_cert), http_cert, separated_mode: true }),
    {
        CertManagerConfig { shared_cert: None, grpc_cert: Some(grpc_cert), http_cert, separated_mode: true }
    }

    /// The certificate gRPC uses.
    pub fn get_grpc_cert(&self) -> (r: Option<&CertConfig>)
        ensures
            same_cert(r, spec_grpc_cert(*self)),
    {
        if self.separated_mode {
            self.grpc_cert.as_ref()
        } else {
            self.shared_cert.as_ref()
        }
    }

    /// The certificate HTTP uses.
    pub fn get_http_cert(&self) -> (r: Option<&CertConfig>)
        ensures
            same_cert(r, spec_http_cert(*self)),
    {
        if self.separated_mode {
            self.http_cert.as_ref()
        } else {
            self.shared_cert.as_ref()
        }
    }

    /// Checks the configuration against the services that are enabled,
    /// given the list of paths that exist: on separated ports gRPC needs its
    /// certificate and each configured certificate of an enabled service
    /// must have its files; on a shared port gRPC needs the shared
    /// certificate, whose files must exist when any service is enabled.
    pub fn validate(&self, require_grpc: bool, require_http: bool, existing: &Vec<String>) -> (r: Result<(), String>)
        ensures
            result_of(spec_manager_config_error(*self, require_grpc, require_http, existing@), r),
    {
        if self.separated_mode {
            if require_grpc {
                match &self.grpc_cert {
                    Some(grpc_cert) => {
                        match grpc_cert.validate(existing) {
                            Ok(()) => {},
                            Err(e) => return Err(concat("gRPC 证书验证失败: ", e.as_str())),
                        }
                    },
                    None => return Err(String::from_str("分端口模式下启用 gRPC 必须配置 gRPC 证书")),
                }
            }
            if require_http {
                match &self.http_cert {
                    Some(http_cert) => {
                        match http_cert.validate(existing) {
                            Ok(()) => {},
                            Err(e) => return Err(concat("HTTP 证书验证失败: ", e.as_str())),
                        }
                    },
                    None => {},
                }
            }
        } else {
            match &self.shared_cert {
                Some(shared_cert) => {
                    if require_grpc || require_http {
                        match shared_cert.validate(existing) {
                            Ok(()) => {},
                            Err(e) => return Err(concat("证书验证失败: ", e.as_str())),
                        }
                    }
                },
                None => {
                    if require_grpc {
                        return Err(String::from_str("同端口模式下启用 gRPC 必须配置证书"));
                    }
                },
            }
        }
        Ok(())
    }
}

} // verus!

//! Certificate management: configuration, the settings builder, the rustls
//! certificate loader and the manager that answers which certificate serves
//! which service.

pub mod builder;
pub mod cert_validation;
pub mod certificate_info;
pub mod config;
pub mod manager;
pub mod rustls_cert;

pub use builder::CertManagerBuilder;
pub use certificate_info::CertificateInfo;
pub use config::{CertConfig, CertManagerConfig};
pub use manager::CertificateManager;
pub use rustls_cert::{AlpnProtocol, RustlsCertManager};

use rat_engine::server::cert_manager::builder::{
    is_certificate_expiring, is_mtls_whitelisted, requires_mtls_auth, should_regenerate_certificate,
    CertManagerBuilder,
};

#[test]
fn builder_starts_from_defaults() {
    let c = CertManagerBuilder::new().build_config();
    assert!(!c.development_mode);
    assert!(c.cert_path.is_none());
    assert!(c.hostnames.is_empty());
    assert!(!c.mtls_enabled);
    assert!(c.mtls_whitelist_paths.is_empty());
    let d = CertManagerBuilder::default().build_config();
    assert_eq!(d.validity_days, c.validity_days);
}

#[test]
fn builder_sets_each_setting() {
    let c = CertManagerBuilder::new()
        .development_mode(true)
        .with_cert_path("c.pem")
        .with_key_path("k.pem")
        .with_ca_path("ca.pem")
        .with_validity_days(365)
        .add_hostname("localhost")
        .add_hostname("127.0.0.1")
        .enable_acme(true)
        .with_acme_production(true)
        .with_acme_email("a@b.c")
        .with_cloudflare_api_token("t")
        .with_acme_renewal_days(30)
        .with_acme_cert_dir("acme")
        .enable_mtls(true)
        .with_client_cert_path("cc.pem")
        .with_client_key_path("ck.pem")
        .with_client_ca_path("cca.pem")
        .with_mtls_mode("self_signed")
        .auto_generate_client_cert(true)
        .with_client_cert_subject("CN=Test")
        .enable_auto_refresh(true)
        .with_refresh_check_interval(3600)
        .force_cert_rotation(true)
        .add_mtls_whitelist_path("/health")
        .add_mtls_whitelist_paths(vec!["/public/*".to_string()])
        .build_config();
    assert!(c.development_mode);
    assert_eq!(c.cert_path.as_deref(), Some("c.pem"));
    assert_eq!(c.key_path.as_deref(), Some("k.pem"));
    assert_eq!(c.ca_path.as_deref(), Some("ca.pem"));
    assert_eq!(c.validity_days, 365);
    assert_eq!(c.hostnames, vec!["localhost".to_string(), "127.0.0.1".to_string()]);
    assert!(c.acme_enabled && c.acme_production);
    assert_eq!(c.acme_email.as_deref(), Some("a@b.c"));
    assert_eq!(c.cloudflare_api_token.as_deref(), Some("t"));
    assert_eq!(c.acme_renewal_days, 30);
    assert_eq!(c.acme_cert_dir.as_deref(), Some("acme"));
    assert!(c.mtls_enabled);
    assert_eq!(c.client_cert_path.as_deref(), Some("cc.pem"));
    assert_eq!(c.client_key_path.as_deref(), Some("ck.pem"));
    assert_eq!(c.client_ca_path.as_deref(), Some("cca.pem"));
    assert_eq!(c.mtls_mode.as_deref(), Some("self_signed"));
    assert!(c.auto_generate_client_cert);
    assert_eq!(c.client_cert_subject.as_deref(), Some("CN=Test"));
    assert!(c.auto_refresh_enabled);
    assert_eq!(c.refresh_check_interval, 3600);
    assert!(c.force_cert_rotation);
    assert_eq!(c.mtls_whitelist_paths, vec!["/health".to_string(), "/public/*".to_string()]);
    let h = CertManagerBuilder::new().with_hostnames(vec!["x".to_string()]).build_config();
    assert_eq!(h.hostnames, vec!["x".to_string()]);
}

#[test]
fn mtls_whitelist_rules() {
    let c = CertManagerBuilder::new()
        .enable_mtls(true)
        .add_mtls_whitelist_path("/health")
        .add_mtls_whitelist_path("/public/*")
        .build_config();
    assert!(is_mtls_whitelisted(&c, "/health"));
    assert!(!is_mtls_whitelisted(&c, "/health/x"));
    assert!(is_mtls_whitelisted(&c, "/public/a/b"));
    assert!(is_mtls_whitelisted(&c, "/public/"));
    assert!(!is_mtls_whitelisted(&c, "/private"));
    assert!(requires_mtls_auth(&c, "/private"));
    assert!(!requires_mtls_auth(&c, "/health"));
    let off = CertManagerBuilder::new().add_mtls_whitelist_path("/health").build_config();
    assert!(!is_mtls_whitelisted(&off, "/health"));
    assert!(!requires_mtls_auth(&off, "/private"));
}

#[test]
fn expiry_rules() {
    let now = 1_000_000u64;
    assert!(is_certificate_expiring(Some(now + 86400), now, 2));
    assert!(!is_certificate_expiring(Some(now + 3 * 86400), now, 2));
    assert!(!is_certificate_expiring(None, now, 30));
    assert!(should_regenerate_certificate(None, now));
    assert!(should_regenerate_certificate(Some(now + 2 * 86400), now));
    assert!(!should_regenerate_certificate(Some(now + 3 * 86400), now));
}

use rat_engine::server::cert_manager::{CertConfig, CertManagerConfig};

fn create_test_cert_config() -> CertConfig {
    CertConfig::from_paths("/tmp/test-cert.pem", "/tmp/test-key.pem")
}

#[test]
fn config_test_shared_mode() {
    let config = CertManagerConfig::shared(CertConfig::from_paths("/cert.pem", "/key.pem"));
    assert!(config.shared_cert.is_some());
    assert!(!config.separated_mode);
    assert!(config.get_grpc_cert().is_some());
    assert!(config.get_http_cert().is_some());
}

#[test]
fn config_test_separated_mode() {
    let grpc_cert = CertConfig::from_paths("/grpc-cert.pem", "/grpc-key.pem");
    let http_cert = CertConfig::from_paths("/http-cert.pem", "/http-key.pem");
    let config = CertManagerConfig::separated(grpc_cert, Some(http_cert));
    assert!(config.separated_mode);
    assert!(config.get_grpc_cert().is_some());
    assert!(config.get_http_cert().is_some());
}

#[test]
fn test_validate_shared_requires_cert() {
    let config = CertManagerConfig::default();
    assert!(config.validate(true, false, &Vec::new()).is_err());
}

#[test]
fn manager_test_shared_mode() {
    let config = CertManagerConfig::shared(create_test_cert_config());
    assert!(!config.separated_mode);
    assert!(config.shared_cert.is_some());
}

#[test]
fn manager_test_separated_mode() {
    let grpc_cert = create_test_cert_config();
    let http_cert = create_test_cert_config();
    let config = CertManagerConfig::separated(grpc_cert, Some(http_cert));
    assert!(config.separated_mode);
    assert!(config.grpc_cert.is_some());
    assert!(config.http_cert.is_some());
}

#[test]
fn cert_config_builders_keep_other_fields() {
    let c = CertConfig::from_paths("/c.pem", "/k.pem")
        .with_domains(vec!["a.com".to_string(), "b.com".to_string()])
        .with_ca("/ca.pem");
    assert_eq!(c.cert_path, "/c.pem");
    assert_eq!(c.key_path, "/k.pem");
    assert_eq!(c.ca_path.as_deref(), Some("/ca.pem"));
    assert_eq!(c.domains, vec!["a.com".to_string(), "b.com".to_string()]);
}

#[test]
fn cert_config_validate_reports_first_missing_file() {
    let c = CertConfig::from_paths("/c.pem", "/k.pem").with_ca("/ca.pem");
    assert_eq!(c.validate(&vec![]), Err("证书文件不存在: /c.pem".to_string()));
    assert_eq!(c.validate(&vec!["/c.pem".to_string()]), Err("私钥文件不存在: /k.pem".to_string()));
    assert_eq!(
        c.validate(&vec!["/c.pem".to_string(), "/k.pem".to_string()]),
        Err("CA 证书文件不存在: /ca.pem".to_string())
    );
    assert_eq!(
        c.validate(&vec!["/c.pem".to_string(), "/k.pem".to_string(), "/ca.pem".to_string()]),
        Ok(())
    );
}

#[test]
fn manager_config_validate_messages() {
    let existing = vec!["/g.pem".to_string(), "/gk.pem".to_string()];
    let grpc = CertConfig::from_paths("/g.pem", "/gk.pem");
    let http = CertConfig::from_paths("/h.pem", "/hk.pem");
    let separated = CertManagerConfig::separated(grpc.clone(), Some(http));
    assert_eq!(separated.validate(true, false, &existing), Ok(()));
    assert_eq!(
        separated.validate(true, true, &existing),
        Err("HTTP 证书验证失败: 证书文件不存在: /h.pem".to_string())
    );
    let no_grpc = CertManagerConfig { shared_cert: None, grpc_cert: None, http_cert: None, separated_mode: true };
    assert_eq!(
        no_grpc.validate(true, false, &existing),
        Err("分端口模式下启用 gRPC 必须配置 gRPC 证书".to_string())
    );
    assert_eq!(
        CertManagerConfig::default().validate(true, false, &existing),
        Err("同端口模式下启用 gRPC 必须配置证书".to_string())
    );
    assert_eq!(CertManagerConfig::default().validate(false, true, &existing), Ok(()));
    let shared = CertManagerConfig::shared(CertConfig::from_paths("/x.pem", "/g.pem"));
    assert_eq!(
        shared.validate(false, true, &existing),
        Err("证书验证失败: 证书文件不存在: /x.pem".to_string())
    );
    assert_eq!(shared.validate(false, false, &existing), Ok(()));
}

#[test]
fn manager_config_certificate_per_service() {
    let grpc = CertConfig::from_paths("/g.pem", "/gk.pem");
    let separated = CertManagerConfig::separated(grpc, None);
    assert_eq!(separated.get_grpc_cert().map(|c| c.cert_path.clone()), Some("/g.pem".to_string()));
    assert!(separated.get_http_cert().is_none());
    let shared = CertManagerConfig::shared(CertConfig::from_paths("/s.pem", "/sk.pem"));
    assert_eq!(shared.get_http_cert().map(|c| c.cert_path.clone()), Some("/s.pem".to_string()));
}

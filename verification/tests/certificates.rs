// Test material, kept as DER bytes and wrapped in PEM armour when a test
// runs: a self-signed Ed25519 certificate for localhost and example.com,
// valid from 2000 to 9999, its private key (PKCS#8), and an unrelated
// Ed25519 key. Ed25519 keys load without drawing random numbers.
const CERT_DER: [u8; 358] = [
    0x30, 0x82, 0x01, 0x62, 0x30, 0x82, 0x01, 0x14, 0xa0, 0x03, 0x02, 0x01, 0x02, 0x02, 0x14, 0x3d,
    0xe9, 0x8d, 0xec, 0x94, 0xc0, 0xe0, 0xa9, 0xfb, 0xb1, 0x0c, 0x53, 0x3d, 0x83, 0xef, 0x03, 0xc8,
    0x7e, 0xc3, 0x39, 0x30, 0x05, 0x06, 0x03, 0x2b, 0x65, 0x70, 0x30, 0x14, 0x31, 0x12, 0x30, 0x10,
    0x06, 0x03, 0x55, 0x04, 0x03, 0x0c, 0x09, 0x6c, 0x6f, 0x63, 0x61, 0x6c, 0x68, 0x6f, 0x73, 0x74,
    0x30, 0x20, 0x17, 0x0d, 0x30, 0x30, 0x30, 0x31, 0x30, 0x31, 0x30, 0x30, 0x30, 0x30, 0x30, 0x30,
    0x5a, 0x18, 0x0f, 0x39, 0x39, 0x39, 0x39, 0x31, 0x32, 0x33, 0x31, 0x32, 0x33, 0x35, 0x39, 0x35,
    0x39, 0x5a, 0x30, 0x14, 0x31, 0x12, 0x30, 0x10, 0x06, 0x03, 0x55, 0x04, 0x03, 0x0c, 0x09, 0x6c,
    0x6f, 0x63, 0x61, 0x6c, 0x68, 0x6f, 0x73, 0x74, 0x30, 0x2a, 0x30, 0x05, 0x06, 0x03, 0x2b, 0x65,
    0x70, 0x03, 0x21, 0x00, 0x7c, 0x2a, 0x50, 0x94, 0xa0, 0xae, 0x72, 0xe8, 0x04, 0xd3, 0x68, 0xec,
    0x2f, 0xe9, 0x62, 0xfb, 0xf1, 0xc6, 0xfe, 0x58, 0x3c, 0x09, 0xaa, 0xb6, 0x16, 0x47, 0x73, 0x0b,
    0x40, 0x0b, 0xb7, 0x14, 0xa3, 0x76, 0x30, 0x74, 0x30, 0x1d, 0x06, 0x03, 0x55, 0x1d, 0x0e, 0x04,
    0x16, 0x04, 0x14, 0xfc, 0x66, 0xde, 0x89, 0x9e, 0xd8, 0x31, 0x2b, 0xbe, 0x00, 0xf8, 0xee, 0xa1,
    0x54, 0x30, 0xb6, 0x3e, 0x07, 0x0f, 0x8a, 0x30, 0x1f, 0x06, 0x03, 0x55, 0x1d, 0x23, 0x04, 0x18,
    0x30, 0x16, 0x80, 0x14, 0xfc, 0x66, 0xde, 0x89, 0x9e, 0xd8, 0x31, 0x2b, 0xbe, 0x00, 0xf8, 0xee,
    0xa1, 0x54, 0x30, 0xb6, 0x3e, 0x07, 0x0f, 0x8a, 0x30, 0x21, 0x06, 0x03, 0x55, 0x1d, 0x11, 0x04,
    0x1a, 0x30, 0x18, 0x82, 0x09, 0x6c, 0x6f, 0x63, 0x61, 0x6c, 0x68, 0x6f, 0x73, 0x74, 0x82, 0x0b,
    0x65, 0x78, 0x61, 0x6d, 0x70, 0x6c, 0x65, 0x2e, 0x63, 0x6f, 0x6d, 0x30, 0x0f, 0x06, 0x03, 0x55,
    0x1d, 0x13, 0x01, 0x01, 0xff, 0x04, 0x05, 0x30, 0x03, 0x01, 0x01, 0xff, 0x30, 0x05, 0x06, 0x03,
    0x2b, 0x65, 0x70, 0x03, 0x41, 0x00, 0xe0, 0xca, 0x39, 0x9e, 0x87, 0xb0, 0xf6, 0xd6, 0xfc, 0x32,
    0x5f, 0x2e, 0x7e, 0x77, 0x6c, 0x4d, 0x31, 0x1f, 0xd9, 0x18, 0x93, 0xea, 0x92, 0x9c, 0x36, 0xe8,
    0x38, 0x5f, 0xef, 0x2b, 0x7d, 0x95, 0xee, 0xbc, 0x3b, 0xc6, 0x3f, 0x81, 0xa3, 0xb0, 0x0b, 0x43,
    0xdc, 0xbe, 0x84, 0xf2, 0x73, 0x9a, 0xc7, 0xc3, 0x6e, 0xe7, 0xee, 0x21, 0x28, 0xae, 0xf5, 0xb1,
    0x8e, 0xd8, 0x19, 0xa9, 0x52, 0x0b,
];
const KEY_DER: [u8; 48] = [
    0x30, 0x2e, 0x02, 0x01, 0x00, 0x30, 0x05, 0x06, 0x03, 0x2b, 0x65, 0x70, 0x04, 0x22, 0x04, 0x20,
    0x88, 0xfb, 0xa0, 0x2a, 0x28, 0xc2, 0x91, 0x20, 0xba, 0x0a, 0x0e, 0x3e, 0xba, 0xa2, 0x82, 0xd0,
    0x97, 0xe7, 0x17, 0xc7, 0xc2, 0xf4, 0xd1, 0xd3, 0x78, 0x93, 0xc7, 0x70, 0x49, 0x9b, 0xc8, 0x3b,
];
const OTHER_KEY_DER: [u8; 48] = [
    0x30, 0x2e, 0x02, 0x01, 0x00, 0x30, 0x05, 0x06, 0x03, 0x2b, 0x65, 0x70, 0x04, 0x22, 0x04, 0x20,
    0x98, 0x23, 0x73, 0x8e, 0xa9, 0x8b, 0xa7, 0xe2, 0x68, 0x49, 0xaf, 0x40, 0x4c, 0x83, 0xb6, 0x8d,
    0xb9, 0x8a, 0x7c, 0x10, 0x1b, 0x92, 0xd3, 0xb7, 0x6c, 0x85, 0x7d, 0x65, 0x88, 0xbd, 0xed, 0x48,
];

fn base64(data: &[u8]) -> String {
    let table = b"ABCDEFGHIJKLMNOPQRSTUVWXYZabcdefghijklmnopqrstuvwxyz0123456789+/";
    let mut out = String::new();
    for chunk in data.chunks(3) {
        let b = [chunk[0], *chunk.get(1).unwrap_or(&0), *chunk.get(2).unwrap_or(&0)];
        let n = ((b[0] as u32) << 16) | ((b[1] as u32) << 8) | (b[2] as u32);
        for i in 0..4 {
            if i <= chunk.len() {
                out.push(table[((n >> (18 - 6 * i)) & 63) as usize] as char);
            } else {
                out.push('=');
            }
        }
    }
    out
}

fn armour(label: &str, der: &[u8]) -> String {
    let body = base64(der);
    let mut pem = format!("-----BEGIN {}-----\n", label);
    for i in (0..body.len()).step_by(64) {
        pem.push_str(&body[i..(i + 64).min(body.len())]);
        pem.push('\n');
    }
    pem.push_str(&format!("-----END {}-----\n", label));
    pem
}

fn cert_pem() -> String {
    armour("CERTIFICATE", &CERT_DER)
}

fn key_pem() -> String {
    armour("PRIVATE KEY", &KEY_DER)
}

fn other_key_pem() -> String {
    armour("PRIVATE KEY", &OTHER_KEY_DER)
}

use rat_engine::server::cert_manager::manager::CertificateFiles;
use rat_engine::server::cert_manager::rustls_cert::{
    offered_alpn_protocols, CertFileContents, DirCertificateContents,
};
use rat_engine::server::cert_manager::{
    AlpnProtocol, CertConfig, CertManagerConfig, CertificateManager, RustlsCertManager,
};

fn files(cert: &str, key: &str, ca: Option<&str>) -> CertFileContents {
    CertFileContents {
        cert: Ok(cert.as_bytes().to_vec()),
        key: Ok(key.as_bytes().to_vec()),
        ca: ca.map(|c| Ok(c.as_bytes().to_vec())),
    }
}

fn err_of<T>(r: Result<T, String>) -> String {
    match r {
        Ok(_) => panic!("expected an error"),
        Err(e) => e,
    }
}

#[test]
fn test_alpn_check() {
    assert!(AlpnProtocol::is_http2(&Some(b"h2".to_vec())));
    assert!(!AlpnProtocol::is_http2(&Some(b"http/1.1".to_vec())));
    assert!(!AlpnProtocol::is_http2(&None));
}

#[test]
fn alpn_http11_includes_no_negotiation() {
    assert!(AlpnProtocol::is_http11(&Some(b"http/1.1".to_vec())));
    assert!(AlpnProtocol::is_http11(&None));
    assert!(!AlpnProtocol::is_http11(&Some(b"h2".to_vec())));
    assert!(!AlpnProtocol::is_http11(&Some(b"http/1.0".to_vec())));
}

#[test]
fn offered_protocols_prefer_http2() {
    assert_eq!(offered_alpn_protocols(), vec![b"h2".to_vec(), b"http/1.1".to_vec()]);
}

#[test]
fn from_config_loads_certificate_for_domains() {
    let config = CertConfig::from_paths("cert.pem", "key.pem")
        .with_domains(vec!["localhost".to_string(), "Example.COM".to_string()]);
    let m = RustlsCertManager::from_config(&config, &files(&cert_pem(), &key_pem(), None)).unwrap();
    assert_eq!(m.get_domains().to_vec(), vec!["localhost".to_string(), "Example.COM".to_string()]);
    assert!(m.supports_domain("localhost"));
    assert!(!m.supports_domain("example.com"));
    let cfg = m.get_server_config();
    assert_eq!(cfg.alpn_protocols, vec![b"h2".to_vec(), b"http/1.1".to_vec()]);
}

#[test]
fn from_config_with_ca_verifies_clients() {
    let config = CertConfig::from_paths("cert.pem", "key.pem")
        .with_domains(vec!["localhost".to_string()])
        .with_ca("ca.pem");
    let m = RustlsCertManager::from_config(&config, &files(&cert_pem(), &key_pem(), Some(cert_pem().as_str()))).unwrap();
    assert_eq!(m.get_domains().len(), 1);
}

#[test]
fn from_config_reports_file_and_parse_failures() {
    let config = CertConfig::from_paths("cert.pem", "key.pem");
    let unread = CertFileContents { cert: Err("no such file".to_string()), key: Ok(vec![]), ca: None };
    assert_eq!(err_of(RustlsCertManager::from_config(&config, &unread)), "打开证书文件失败: no such file");
    let key_unread = CertFileContents { cert: Ok(cert_pem().as_bytes().to_vec()), key: Err("denied".to_string()), ca: None };
    assert_eq!(err_of(RustlsCertManager::from_config(&config, &key_unread)), "打开私钥文件失败: denied");
    assert_eq!(err_of(RustlsCertManager::from_config(&config, &files(&cert_pem(), "not a key", None))), "私钥文件为空");
    assert_eq!(err_of(RustlsCertManager::from_config(&config, &files("no certificate here", &key_pem(), None))), "证书为空");
}

#[test]
fn from_config_reports_mismatched_key_and_default_domain() {
    let named = CertConfig::from_paths("cert.pem", "key.pem").with_domains(vec!["localhost".to_string()]);
    let e = err_of(RustlsCertManager::from_config(&named, &files(&cert_pem(), &other_key_pem(), None)));
    assert!(e.starts_with("创建 CertifiedKey 失败: "), "{}", e);
    let unnamed = CertConfig::from_paths("cert.pem", "key.pem");
    let e = err_of(RustlsCertManager::from_config(&unnamed, &files(&cert_pem(), &key_pem(), None)));
    assert!(e.starts_with("添加证书到 SNI 解析器失败: "), "{}", e);
}

#[test]
fn from_config_reports_ca_failures() {
    let config = CertConfig::from_paths("cert.pem", "key.pem")
        .with_domains(vec!["localhost".to_string()])
        .with_ca("ca.pem");
    let mut f = files(&cert_pem(), &key_pem(), Some(""));
    assert_eq!(err_of(RustlsCertManager::from_config(&config, &f)), "CA 证书为空");
    f.ca = Some(Err("gone".to_string()));
    assert_eq!(err_of(RustlsCertManager::from_config(&config, &f)), "打开 CA 证书文件失败: gone");
}

#[test]
fn certificates_in_dir_pairs_certificates_with_keys() {
    let names: Vec<String> = vec![
        "example.com.pem",
        "example.com-key.pem",
        "nodot.pem",
        "nodot-key.pem",
        "lonely.org.pem",
        "readme.txt",
        "a.b.pem",
        "a.b-key.pem",
    ]
    .into_iter()
    .map(String::from)
    .collect();
    let found = RustlsCertManager::certificates_in_dir("certs", &names);
    let seen: Vec<(String, String, String)> =
        found.into_iter().map(|c| (c.domain, c.cert_path, c.key_path)).collect();
    assert_eq!(
        seen,
        vec![
            (
                "example.com".to_string(),
                "certs/example.com.pem".to_string(),
                "certs/example.com-key.pem".to_string()
            ),
            ("a.b".to_string(), "certs/a.b.pem".to_string(), "certs/a.b-key.pem".to_string()),
        ]
    );
    let found = RustlsCertManager::certificates_in_dir("certs/", &names);
    assert_eq!(found[0].cert_path, "certs/example.com.pem");
}

#[test]
fn from_dir_contents_loads_each_domain() {
    let entries = vec![DirCertificateContents {
        domain: "localhost".to_string(),
        key_path: "d/localhost-key.pem".to_string(),
        cert: Ok(cert_pem().as_bytes().to_vec()),
        key: Ok(key_pem().as_bytes().to_vec()),
    }];
    let m = RustlsCertManager::from_dir_contents(&entries).unwrap();
    assert_eq!(m.get_domains().to_vec(), vec!["localhost".to_string()]);
    assert_eq!(
        err_of(RustlsCertManager::from_dir_contents(&vec![])),
        "证书目录中没有找到有效的证书"
    );
    let no_key = vec![DirCertificateContents {
        domain: "x.com".to_string(),
        key_path: "d/x.com-key.pem".to_string(),
        cert: Ok(cert_pem().as_bytes().to_vec()),
        key: Ok(b"nothing".to_vec()),
    }];
    assert_eq!(err_of(RustlsCertManager::from_dir_contents(&no_key)), "未找到私钥: d/x.com-key.pem");
    let empty = vec![DirCertificateContents {
        domain: "x.com".to_string(),
        key_path: "d/x.com-key.pem".to_string(),
        cert: Ok(b"".to_vec()),
        key: Ok(key_pem().as_bytes().to_vec()),
    }];
    assert_eq!(err_of(RustlsCertManager::from_dir_contents(&empty)), "证书为空: x.com");
}

#[test]
fn certificate_manager_follows_port_mode() {
    let cert = CertConfig::from_paths("c", "k").with_domains(vec!["localhost".to_string()]);
    let shared = CertificateManager::from_config(
        CertManagerConfig::shared(cert.clone()),
        &CertificateFiles { grpc: None, http: None, shared: Some(files(&cert_pem(), &key_pem(), None)) },
    )
    .unwrap();
    assert!(shared.has_grpc_cert());
    assert!(shared.has_http_cert());
    assert!(!shared.is_separated_mode());
    assert!(shared.get_http_server_config().is_some());
    let _ = shared.get_grpc_server_config();
    assert!(!shared.is_mtls_enabled());

    let other = CertConfig::from_paths("c2", "k2").with_domains(vec!["example.com".to_string()]).with_ca("ca");
    let separated = CertificateManager::from_config(
        CertManagerConfig::separated(cert.clone(), Some(other)),
        &CertificateFiles {
            grpc: Some(files(&cert_pem(), &key_pem(), None)),
            http: Some(files(&cert_pem(), &key_pem(), Some(cert_pem().as_str()))),
            shared: None,
        },
    )
    .unwrap();
    assert!(separated.is_separated_mode());
    assert!(separated.is_mtls_enabled());
    assert!(!separated.is_grpc_mtls_enabled());
    assert!(separated.is_http_mtls_enabled());
    assert!(separated.is_mtls_whitelisted("/any"));
    assert_eq!(separated.get_domains(), vec!["example.com".to_string(), "localhost".to_string()]);

    let none = CertificateManager::from_config(
        CertManagerConfig::default(),
        &CertificateFiles { grpc: None, http: None, shared: None },
    )
    .unwrap();
    assert!(!none.has_grpc_cert());
    assert!(none.get_http_server_config().is_none());
    assert!(none.get_domains().is_empty());
}

#[test]
fn certificate_manager_domains_sorted_without_repeats() {
    let a = CertConfig::from_paths("c", "k").with_domains(vec!["localhost".to_string(), "example.com".to_string()]);
    let b = CertConfig::from_paths("c", "k").with_domains(vec!["example.com".to_string()]);
    let m = CertificateManager::from_config(
        CertManagerConfig::separated(a, Some(b)),
        &CertificateFiles {
            grpc: Some(files(&cert_pem(), &key_pem(), None)),
            http: Some(files(&cert_pem(), &key_pem(), None)),
            shared: None,
        },
    )
    .unwrap();
    assert_eq!(m.get_domains(), vec!["example.com".to_string(), "localhost".to_string()]);
}

#[test]
fn certificate_manager_reports_load_failure() {
    let cert = CertConfig::from_paths("c", "k");
    let r = CertificateManager::from_config(
        CertManagerConfig::separated(cert, None),
        &CertificateFiles { grpc: Some(files("", &key_pem(), None)), http: None, shared: None },
    );
    assert_eq!(err_of(r), "证书为空");
}

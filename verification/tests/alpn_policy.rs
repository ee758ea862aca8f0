use rat_engine::server::alpn_policy::{
    grpc_alpn_check, http_tls_alpn_check, multi_protocol_alpn_check, upgrade_required_response,
};
use rat_engine::server::cert_manager::cert_validation::validate_certificate_algorithm;

#[test]
fn http_listener_requires_http2() {
    assert_eq!(http_tls_alpn_check(&Some(b"h2".to_vec())), Ok(()));
    assert_eq!(
        http_tls_alpn_check(&Some(b"http/1.1".to_vec())),
        Err("TLS 模式只支持 HTTP/2，已发送 426 响应".to_string())
    );
    assert!(http_tls_alpn_check(&None).is_err());
    assert!(upgrade_required_response().starts_with("HTTP/1.1 426 Upgrade Required\r\n"));
}

#[test]
fn single_port_requires_http2() {
    assert_eq!(multi_protocol_alpn_check(&Some(b"h2".to_vec())), Ok(()));
    assert_eq!(multi_protocol_alpn_check(&None), Err("单端口多协议模式强制要求 HTTP/2".to_string()));
}

#[test]
fn grpc_listener_accepts_unnegotiated() {
    assert_eq!(grpc_alpn_check(&None), Ok(()));
    assert_eq!(grpc_alpn_check(&Some(b"h2".to_vec())), Ok(()));
    assert_eq!(
        grpc_alpn_check(&Some(b"h3".to_vec())),
        Err(format!("gRPC 只支持 HTTP/2，客户端协商的 ALPN 协议: {:?}", Some(b"h3".to_vec())))
    );
    assert_eq!(
        grpc_alpn_check(&Some(vec![])),
        Err("gRPC 只支持 HTTP/2，客户端协商的 ALPN 协议: Some([])".to_string())
    );
}

#[test]
fn certificate_algorithms() {
    assert_eq!(validate_certificate_algorithm("ecdsa-with-SHA384", true, "EC"), Ok(()));
    assert_eq!(validate_certificate_algorithm("ecdsa-with-SHA1", true, "EC"), Ok(()));
    assert_eq!(
        validate_certificate_algorithm("sha256WithRSAEncryption", true, "EC"),
        Err("不支持的签名算法: sha256WithRSAEncryption，仅支持 ECDSA".to_string())
    );
    assert_eq!(
        validate_certificate_algorithm("ecdsa-with-SHA256", false, "Id(6)"),
        Err("不支持的公钥算法: Id(6)，仅支持 EC".to_string())
    );
}

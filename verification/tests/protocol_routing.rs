use rat_engine::server::protocol_detector::is_grpc_request;
use rat_engine::server::protocol_routing::{
    copy_tail, detect_protocol, route_by_detected_protocol, ConnectionHandler, DetectError, RouteError,
    ServerMode,
};
use rat_engine::server::ProtocolType;

const SIGNATURE: [u8; 12] = [0x0D, 0x0A, 0x0D, 0x0A, 0x00, 0x0D, 0x0A, 0x51, 0x55, 0x49, 0x54, 0x0A];

#[test]
fn grpc_request_by_content_type_or_frame() {
    assert!(is_grpc_request(b"POST /svc/M HTTP/2\r\ncontent-type: application/grpc\r\n"));
    assert!(!is_grpc_request(b"GET / HTTP/1.1\r\nContent-Type: text/html\r\n"));
    assert!(is_grpc_request(&[0, 0, 0, 0, 2, 7, 8]));
    assert!(!is_grpc_request(&[0, 0, 0, 0, 9, 7]));
    assert!(!is_grpc_request(&[0x16, 3, 1, 0, 5]));
    assert!(!is_grpc_request(b""));
}

#[test]
fn detect_plain_http_and_tls_on_mixed_port() {
    let http = detect_protocol(b"GET / HTTP/1.1\r\n\r\n", ServerMode::Mixed, false).unwrap().unwrap();
    assert_eq!(http.protocol, ProtocolType::HTTP1_1);
    assert_eq!(http.payload_start, 0);
    assert!(http.proxied_client.is_none());
    let tls = detect_protocol(&[0x16, 3, 1, 0, 0], ServerMode::Mixed, true).unwrap().unwrap();
    assert_eq!(tls.protocol, ProtocolType::TLS);
    assert!(detect_protocol(b"", ServerMode::Mixed, true).unwrap().is_none());
}

#[test]
fn detect_cleartext_grpc_needs_certificate() {
    let grpc = b"PRI * HTTP/2.0\r\ncontent-type: application/grpc\r\n";
    assert_eq!(detect_protocol(grpc, ServerMode::Mixed, false).unwrap_err(), DetectError::GrpcRequiresCertificate);
    let ok = detect_protocol(grpc, ServerMode::Mixed, true).unwrap().unwrap();
    assert_eq!(ok.protocol, ProtocolType::HTTP2);
}

#[test]
fn detect_by_port_mode() {
    let tls = [0x16u8, 3, 3, 0, 1];
    assert_eq!(detect_protocol(&tls, ServerMode::HttpOnly, true).unwrap().unwrap().protocol, ProtocolType::TLS);
    assert_eq!(detect_protocol(&tls, ServerMode::HttpOnly, false).unwrap().unwrap().protocol, ProtocolType::HTTP1_1);
    assert_eq!(detect_protocol(&tls, ServerMode::GrpcOnly, true).unwrap().unwrap().protocol, ProtocolType::HTTP2);
}

#[test]
fn detect_skips_proxy_header() {
    let mut data = Vec::from(SIGNATURE);
    data.extend_from_slice(&[0x21, 0x11, 0x00, 0x0C, 1, 2, 3, 4, 5, 6, 7, 8, 0x04, 0xD2, 0x00, 0x50]);
    data.extend_from_slice(b"GET / HTTP/1.1\r\n");
    let c = detect_protocol(&data, ServerMode::Mixed, false).unwrap().unwrap();
    assert_eq!(c.payload_start, 28);
    assert_eq!(c.protocol, ProtocolType::HTTP1_1);
    let client = c.proxied_client.unwrap();
    assert_eq!(client.port, 1234);
    assert_eq!(copy_tail(&data, c.payload_start), b"GET / HTTP/1.1\r\n".to_vec());
}

#[test]
fn route_each_protocol() {
    let tls = [0x16u8, 3, 3];
    assert_eq!(route_by_detected_protocol(ProtocolType::HTTP1_1, b"GET", ServerMode::Mixed, false), Ok(ConnectionHandler::Http1));
    assert_eq!(route_by_detected_protocol(ProtocolType::TLS, &tls, ServerMode::Mixed, true), Ok(ConnectionHandler::HttpTls));
    assert_eq!(route_by_detected_protocol(ProtocolType::TLS, &tls, ServerMode::GrpcOnly, true), Ok(ConnectionHandler::GrpcTls));
    assert_eq!(route_by_detected_protocol(ProtocolType::HTTP2, b"PRI", ServerMode::Mixed, true), Err(RouteError::CleartextHttp2));
    assert_eq!(route_by_detected_protocol(ProtocolType::GRPC, b"POST / HTTP/1.1", ServerMode::Mixed, true), Ok(ConnectionHandler::Http1));
    assert_eq!(route_by_detected_protocol(ProtocolType::GRPC, b"PRI", ServerMode::Mixed, true), Err(RouteError::CleartextGrpc));
    assert_eq!(route_by_detected_protocol(ProtocolType::WebSocket, b"", ServerMode::Mixed, true), Err(RouteError::WebSocketUnsupported));
    assert_eq!(route_by_detected_protocol(ProtocolType::SSH, b"", ServerMode::Mixed, true), Err(RouteError::UnsupportedProtocol));
}

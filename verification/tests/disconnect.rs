use rat_engine::server::disconnect::{
    http1_serve_outcome, is_http1_client_left, is_listener_client_left, is_request_stream_client_left,
    is_tls_client_left, tls_serve_outcome,
};

#[test]
fn client_left_texts() {
    assert!(is_tls_client_left("operation was CANCELED"));
    assert!(is_tls_client_left("connection reset by peer"));
    assert!(!is_tls_client_left("invalid header"));
    assert!(is_http1_client_left("connection closed before message completed"));
    assert!(!is_http1_client_left("connection closed"));
    assert!(is_listener_client_left("hyper::Error(IncompleteMessage)"));
    assert!(!is_listener_client_left("timeout"));
    assert!(is_request_stream_client_left("stream no longer needed"));
    assert!(is_request_stream_client_left("stream error: reset"));
    assert!(!is_request_stream_client_left("decode error"));
}

#[test]
fn serve_outcomes() {
    assert_eq!(tls_serve_outcome(None), Ok(()));
    assert_eq!(tls_serve_outcome(Some("broken pipe")), Ok(()));
    assert_eq!(tls_serve_outcome(Some("bad frame")), Err("HTTP/2 over TLS 连接处理失败: bad frame".to_string()));
    assert_eq!(http1_serve_outcome(Some("unexpected end of file")), Ok(()));
    assert_eq!(http1_serve_outcome(Some("parse error")), Err("HTTP/1.1 连接处理失败: parse error".to_string()));
}

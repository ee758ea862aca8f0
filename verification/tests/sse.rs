use rat_engine::server::global_sse_manager::{
    broadcast_sse_message, broadcast_sse_message_with_type, disconnect_sse_connection, event_stream_headers,
    format_data, format_event, get_sse_connection_count, send_sse_message, send_sse_message_with_type,
    GlobalSseManager,
};

#[test]
fn event_texts() {
    assert_eq!(format_event("chat", "hello"), "event: chat\ndata: hello\n\n");
    assert_eq!(format_data("hello"), "data: hello\n\n");
    assert_eq!(event_stream_headers()[0], ("Content-Type".to_string(), "text/event-stream".to_string()));
    assert_eq!(event_stream_headers().len(), 4);
}

#[test]
fn send_to_registered_and_unknown_streams() {
    let mut m = GlobalSseManager::new();
    let mut rx = m.register_connection("c1".to_string());
    assert!(m.has_connection("c1"));
    assert_eq!(m.send_data("c1", "x"), Ok(()));
    assert_eq!(rx.try_recv().unwrap(), "data: x\n\n");
    assert_eq!(m.send_event("c1", "e", "y"), Ok(()));
    assert_eq!(rx.try_recv().unwrap(), "event: e\ndata: y\n\n");
    assert_eq!(m.send_heartbeat("c1"), Ok(()));
    assert_eq!(rx.try_recv().unwrap(), ": heartbeat\n\n");
    assert_eq!(m.send_data("nope", "x"), Err("连接不存在".to_string()));
    assert_eq!(m.send_heartbeat("nope"), Err("连接不存在".to_string()));
    drop(rx);
    assert_eq!(m.send_event("c1", "e", "y"), Err("发送SSE事件失败: SendError { .. }".to_string()));
    assert_eq!(m.send_data("c1", "y"), Err("发送SSE数据失败: SendError { .. }".to_string()));
    assert_eq!(m.send_heartbeat("c1"), Err("发送心跳失败: SendError { .. }".to_string()));
}

#[test]
fn broadcast_drops_streams_whose_client_left() {
    let mut m = GlobalSseManager::default();
    let mut rx1 = m.register_connection("a".to_string());
    let rx2 = m.register_connection("b".to_string());
    let _rx3 = m.register_connection("c".to_string());
    drop(rx2);
    assert_eq!(get_sse_connection_count(&m), 3);
    assert_eq!(broadcast_sse_message(&mut m, "hi"), 2);
    assert_eq!(get_sse_connection_count(&m), 2);
    assert!(!m.has_connection("b"));
    assert_eq!(rx1.try_recv().unwrap(), "data: hi\n\n");
    assert_eq!(broadcast_sse_message_with_type(&mut m, "news", "up"), 2);
    assert_eq!(rx1.try_recv().unwrap(), "event: news\ndata: up\n\n");
}

#[test]
fn disconnect_tells_client_and_forgets_stream() {
    let mut m = GlobalSseManager::new();
    let mut rx = m.register_connection("a".to_string());
    assert_eq!(send_sse_message(&m, "a", "1"), Ok(()));
    assert_eq!(send_sse_message_with_type(&m, "a", "t", "2"), Ok(()));
    assert!(disconnect_sse_connection(&mut m, "a"));
    assert!(!disconnect_sse_connection(&mut m, "a"));
    assert_eq!(rx.try_recv().unwrap(), "data: 1\n\n");
    assert_eq!(rx.try_recv().unwrap(), "event: t\ndata: 2\n\n");
    assert_eq!(rx.try_recv().unwrap(), "event: disconnect\ndata: 服务器断开连接\n\n");
    assert_eq!(rx.try_recv().unwrap(), "DISCONNECT_EVENT");
    assert_eq!(m.get_connection_count(), 0);
    let _r = m.register_connection("b".to_string());
    m.clear();
    assert_eq!(m.get_connection_count(), 0);
}

use rat_engine::server::grpc_handler::connection_manager::{
    ids_idle_beyond, GrpcConnectionManager, GrpcConnectionType,
};
use rat_engine::server::grpc_handler::dispatch::{
    extract_grpc_method, select_handler, GrpcHandlerKind, GrpcMethodError, RegisteredKinds,
};
use rat_engine::server::grpc_handler::framing::{encode_frame, next_frame, FrameError, FrameStep};
use rat_engine::server::grpc_handler::method_table::{unimplemented_message, GrpcMethodTable};
use rat_engine::server::grpc_handler::streaming::{
    is_client_gone, is_stream_inactive, next_stream_step, StreamDecision, StreamEvent, StreamPolicy,
};
use rat_engine::server::grpc_handler::TypedServerStreamAdapter;

fn kinds(unary: bool, server_stream: bool, client_stream: bool, bidirectional: bool) -> RegisteredKinds {
    RegisteredKinds { unary, server_stream, client_stream, bidirectional }
}

#[test]
fn frame_encodes_flag_length_payload() {
    assert_eq!(encode_frame(b"abc"), vec![0, 0, 0, 0, 3, b'a', b'b', b'c']);
    assert_eq!(encode_frame(b""), vec![0, 0, 0, 0, 0]);
    let big = vec![7u8; 300];
    let f = encode_frame(&big);
    assert_eq!(&f[..5], &[0, 0, 0, 1, 44]);
    assert_eq!(f.len(), 305);
}

#[test]
fn frame_roundtrip_and_partial() {
    let mut buf = encode_frame(b"hello");
    buf.extend_from_slice(b"rest");
    match next_frame(&buf).unwrap() {
        FrameStep::Message { payload, consumed } => {
            assert_eq!(payload, b"hello".to_vec());
            assert_eq!(consumed, 10);
        },
        FrameStep::NeedMore => panic!("a whole frame is buffered"),
    }
    assert!(matches!(next_frame(&buf[..7]).unwrap(), FrameStep::NeedMore));
    assert!(matches!(next_frame(&buf[..3]).unwrap(), FrameStep::NeedMore));
}

#[test]
fn frame_errors() {
    assert_eq!(next_frame(&[1, 0, 0, 0, 1, 9]).unwrap_err(), FrameError::Compressed);
    assert_eq!(next_frame(&[0, 0x06, 0x40, 0x00, 0x01]).unwrap_err(), FrameError::TooLarge(104857601));
    assert!(matches!(next_frame(&[0, 0x06, 0x40, 0x00, 0x00]).unwrap(), FrameStep::NeedMore));
}

#[test]
fn handler_selection_order() {
    assert_eq!(select_handler(false, kinds(true, true, true, true)), Some(GrpcHandlerKind::Unary));
    assert_eq!(select_handler(false, kinds(false, true, true, true)), Some(GrpcHandlerKind::ServerStream));
    assert_eq!(select_handler(false, kinds(false, false, true, true)), Some(GrpcHandlerKind::ClientStream));
    assert_eq!(select_handler(true, kinds(false, false, true, true)), Some(GrpcHandlerKind::Bidirectional));
    assert_eq!(select_handler(true, kinds(false, false, true, false)), None);
    assert_eq!(select_handler(false, kinds(false, false, false, false)), None);
}

#[test]
fn method_from_path() {
    assert_eq!(extract_grpc_method("/pkg.Svc/Call").unwrap(), "/pkg.Svc/Call");
    assert_eq!(extract_grpc_method("pkg.Svc/Call").unwrap_err(), GrpcMethodError::InvalidPath);
    assert_eq!(extract_grpc_method("").unwrap_err(), GrpcMethodError::InvalidPath);
    assert_eq!(unimplemented_message("/a/B"), "方法未实现: /a/B");
}

#[test]
fn method_table_lookup_and_listing() {
    let mut t = GrpcMethodTable::new();
    assert!(t.list_methods().is_empty());
    t.register(GrpcHandlerKind::Unary, "/z.S/Get");
    t.register(GrpcHandlerKind::Bidirectional, "/a.S/Chat");
    t.register(GrpcHandlerKind::ServerStream, "/z.S/Get");
    t.register(GrpcHandlerKind::Unary, "/z.S/Get");
    let k = t.kinds_of("/z.S/Get");
    assert!(k.unary && k.server_stream && !k.client_stream && !k.bidirectional);
    let none = t.kinds_of("/none");
    assert!(!none.unary && !none.server_stream && !none.client_stream && !none.bidirectional);
    assert_eq!(
        t.list_methods(),
        vec!["/a.S/Chat".to_string(), "/z.S/Get".to_string(), "/z.S/Get".to_string()]
    );
    assert_eq!(select_handler(false, t.kinds_of("/a.S/Chat")), Some(GrpcHandlerKind::Bidirectional));
    assert!(t.is_registered("/a.S/Chat"));
    assert!(!t.is_registered("/index.html"));
}

#[test]
fn stream_steps_by_policy() {
    match next_stream_step(StreamPolicy::ServerStream, StreamEvent::Message(b"xy".to_vec())) {
        StreamDecision::SendFrame(f) => assert_eq!(f, vec![0, 0, 0, 0, 2, b'x', b'y']),
        _ => panic!("a message is sent as a frame"),
    }
    for policy in [StreamPolicy::Queued, StreamPolicy::ServerStream, StreamPolicy::Bidirectional] {
        assert!(matches!(
            next_stream_step(policy, StreamEvent::End),
            StreamDecision::Finish { send_error: false, send_ok_status: true }
        ));
    }
    assert!(matches!(
        next_stream_step(StreamPolicy::ServerStream, StreamEvent::HandlerError),
        StreamDecision::Finish { send_error: true, send_ok_status: false }
    ));
    assert!(matches!(
        next_stream_step(StreamPolicy::Bidirectional, StreamEvent::HandlerError),
        StreamDecision::Finish { send_error: true, send_ok_status: true }
    ));
    assert!(matches!(
        next_stream_step(StreamPolicy::ServerStream, StreamEvent::SendFailed("connection reset".to_string())),
        StreamDecision::Finish { send_error: false, send_ok_status: false }
    ));
    assert!(matches!(
        next_stream_step(StreamPolicy::ServerStream, StreamEvent::SendFailed("flow control".to_string())),
        StreamDecision::Finish { send_error: false, send_ok_status: true }
    ));
    match next_stream_step(StreamPolicy::Queued, StreamEvent::SendFailed("connection reset".to_string())) {
        StreamDecision::Fail(t) => assert_eq!(t, "connection reset"),
        _ => panic!("the queue fails on other send errors"),
    }
    assert!(matches!(
        next_stream_step(StreamPolicy::Queued, StreamEvent::SendFailed("send on inactive stream".to_string())),
        StreamDecision::Finish { send_error: false, send_ok_status: true }
    ));
    match next_stream_step(StreamPolicy::Bidirectional, StreamEvent::EncodeFailed("bad".to_string())) {
        StreamDecision::Fail(t) => assert_eq!(t, "bad"),
        _ => panic!("an encoding failure fails a bidirectional request"),
    }
    assert!(matches!(
        next_stream_step(StreamPolicy::ServerStream, StreamEvent::EncodeFailed("bad".to_string())),
        StreamDecision::Finish { send_error: false, send_ok_status: true }
    ));
}

#[test]
fn closed_stream_texts() {
    assert!(is_client_gone("stream closed"));
    assert!(is_client_gone("broken pipe (os error 32)"));
    assert!(!is_client_gone("protocol error"));
    assert!(is_stream_inactive("inactive stream"));
    assert!(!is_stream_inactive("stream closed"));
}

#[test]
fn connection_manager_indexes_users_and_rooms() {
    let mut m = GrpcConnectionManager::new();
    assert_eq!(m.get_stats(), (0, 0, 0));
    let (a, mut rx_a) = m.add_connection("alice".to_string(), Some("lobby".to_string()), GrpcConnectionType::BidirectionalStream);
    let (b, mut rx_b) = m.add_connection("bob".to_string(), Some("lobby".to_string()), GrpcConnectionType::ServerStream);
    let (c, _rx_c) = m.add_connection("alice".to_string(), None, GrpcConnectionType::ClientStream);
    assert_eq!((a.as_str(), b.as_str(), c.as_str()), ("1", "2", "3"));
    assert_eq!(m.get_stats(), (3, 2, 1));
    assert_eq!(m.broadcast_to_room("lobby", b"hi".to_vec()), 2);
    assert_eq!(rx_a.try_recv().unwrap(), b"hi".to_vec());
    assert_eq!(rx_b.try_recv().unwrap(), b"hi".to_vec());
    assert_eq!(m.broadcast_to_room("nowhere", b"x".to_vec()), 0);
    m.update_activity(&a);
    m.remove_connection(&a);
    assert_eq!(m.get_stats(), (2, 2, 1));
    assert_eq!(m.send_to_user("alice", b"yo".to_vec()), 1);
    m.remove_connection(&b);
    assert_eq!(m.get_stats(), (1, 1, 0));
    m.remove_connection(&c);
    assert_eq!(m.get_stats(), (0, 0, 0));
    m.remove_connection("42");
    assert_eq!(m.get_stats(), (0, 0, 0));
}

#[test]
fn connection_manager_keepalive_and_expiry() {
    let mut m = GrpcConnectionManager::new();
    let (_id, mut rx) = m.add_connection("u".to_string(), None, GrpcConnectionType::ServerStream);
    assert_eq!(m.send_keepalive(), 1);
    assert_eq!(rx.try_recv().unwrap(), b"keepalive".to_vec());
    m.cleanup_expired_connections();
    assert_eq!(m.get_stats(), (1, 1, 0));
    let later = std::time::Instant::now() + std::time::Duration::from_secs(301);
    assert_eq!(m.expired_connection_ids(&later), vec!["1".to_string()]);
}

#[test]
fn idle_ids_are_those_past_the_timeout_in_order() {
    let activity = vec![
        ("1".to_string(), 300_000_000_001u128),
        ("2".to_string(), 300_000_000_000u128),
        ("3".to_string(), 5u128),
        ("4".to_string(), u128::MAX),
    ];
    assert_eq!(ids_idle_beyond(&activity, 300), vec!["1".to_string(), "4".to_string()]);
    assert_eq!(ids_idle_beyond(&activity, 0), vec!["1".to_string(), "2".to_string(), "3".to_string(), "4".to_string()]);
    assert!(ids_idle_beyond(&vec![], 0).is_empty());
}

#[test]
fn remove_connections_closes_each_listed_one() {
    let mut m = GrpcConnectionManager::new();
    let (a, _ra) = m.add_connection("alice".to_string(), Some("lobby".to_string()), GrpcConnectionType::ServerStream);
    let (_b, _rb) = m.add_connection("bob".to_string(), None, GrpcConnectionType::ServerStream);
    let (c, _rc) = m.add_connection("carol".to_string(), Some("lobby".to_string()), GrpcConnectionType::ServerStream);
    m.remove_connections(&vec![a, c, "99".to_string()]);
    assert_eq!(m.get_stats(), (1, 1, 0));
    let later = std::time::Instant::now() + std::time::Duration::from_secs(301);
    assert_eq!(m.expired_connection_ids(&later), vec!["2".to_string()]);
}

#[test]
fn typed_adapter_wraps_handler() {
    let _adapter: TypedServerStreamAdapter<u32, &str> = TypedServerStreamAdapter::new("handler");
}

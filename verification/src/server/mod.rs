//! Server-side logic.

pub mod alpn_policy;
pub mod cert_manager;
pub mod cors;
pub mod disconnect;
pub mod global_sse_manager;
pub mod grpc_handler;
pub mod protocol_detection_middleware;
pub mod protocol_detector;
pub mod protocol_routing;
pub mod proxy_protocol;
pub mod router;

pub use protocol_routing::ProtocolType;

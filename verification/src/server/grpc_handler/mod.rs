//! gRPC request handling: message framing, dispatch decisions, the table of
//! registered methods, the relaying of response streams, and the long-lived
//! connections indexed by user and room.

pub mod connection_manager;
pub mod dispatch;
pub mod framing;
pub mod handler_traits;
pub mod method_table;
pub mod streaming;

pub use connection_manager::{GrpcConnection, GrpcConnectionManager, GrpcConnectionType};
pub use handler_traits::TypedServerStreamAdapter;

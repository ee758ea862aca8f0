//! Verified core of the RAT Engine server: protocol detection, PROXY protocol
//! parsing, gRPC framing, certificate configuration and related bookkeeping.

pub mod common;
pub mod server;

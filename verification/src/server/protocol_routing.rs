//! Decisions taken on a fresh connection: skip a PROXY v2 header, decide the
//! protocol from the first bytes and the server mode, and choose the handler
//! that serves it. The caller reads the bytes and runs the chosen handler.

use vstd::prelude::*;
use crate::common::bytes::{bytes_contains, seq_contains};
use crate::server::protocol_detector::{is_grpc_request, spec_is_grpc_request};
use crate::server::proxy_protocol::{
    be16, spec_is_proxy_v2, spec_parse, IpAddress, IpSpec, ProxyProtocolV2Parser, SocketAddress,
    SocketAddrSpec,
};

verus! {

/// Protocol of a connection.
#[derive(Debug, Clone, Copy, PartialEq, Eq, Structural)]
pub enum ProtocolType {
    HTTP1_0,
    HTTP1_1,
    HTTP2,
    HTTP3,
    GRPC,
    TLS,
    Unknown,
    WebSocket,
    SSH,
    TCP,
    QUIC,
    MQTT,
    UDP,
    FTP,
    SMTP,
    DNS,
    Redis,
    MySQL,
    Custom,
}

/// Which services a listening port offers.
#[derive(Debug, Clone, Copy, PartialEq, Eq, Structural)]
pub enum ServerMode {
    /// Only HTTP (cleartext, or HTTPS when a certificate is configured).
    HttpOnly,
    /// Only gRPC over TLS.
    GrpcOnly,
    /// HTTP and gRPC on one port.
    Mixed,
}

/// Outcome of looking at the first bytes of a connection.
#[derive(Debug, Clone, Copy)]
pub struct DetectedConnection {
    /// The client address announced by a PROXY v2 header, when it carried an
    /// IPv4 source address; the peer address stands otherwise.
    pub proxied_client: Option<SocketAddress>,
    /// Offset of the application data (just past a PROXY v2 header, if any).
    pub payload_start: usize,
    /// Protocol the connection is routed as.
    pub protocol: ProtocolType,
}

/// Why a connection is refused before any handler runs.
#[derive(Debug, Clone, Copy, PartialEq, Eq, Structural)]
pub enum DetectError {
    /// A cleartext gRPC request arrived on a mixed port without a TLS
    /// certificate.
    GrpcRequiresCertificate,
}

/// The handler that serves a connection.
#[derive(Debug, Clone, Copy, PartialEq, Eq, Structural)]
pub enum ConnectionHandler {
    /// Cleartext HTTP/1.x (with upgrade to HTTP/2 allowed).
    Http1,
    /// TLS handshake, then HTTP/2 through the HTTP service.
    HttpTls,
    /// TLS handshake, then the gRPC service.
    GrpcTls,
}

/// Why a detected connection is refused.
#[derive(Debug, Clone, Copy, PartialEq, Eq, Structural)]
pub enum RouteError {
    /// HTTP/2 over cleartext (h2c) is not served.
    CleartextHttp2,
    /// gRPC must run over TLS.
    CleartextGrpc,
    /// WebSocket is not served.
    WebSocketUnsupported,
    /// Any other protocol.
    UnsupportedProtocol,
}

/// Length of the PROXY v2 header at the start of `d` (signature, 4 header
/// bytes, and the declared address block).
pub open spec fn proxy_header_len(d: Seq<u8>) -> int {
    16 + be16(d[14], d[15])
}

/// The client address a PROXY v2 header yields for the connection: its
/// source address when it parses and carries an IPv4 source. (The text
/// `ip:port` of an IPv6 source does not read back as a socket address, so
/// the peer address stands then.)
pub open spec fn spec_proxied_client(d: Seq<u8>) -> Option<SocketAddrSpec> {
    match spec_parse(d) {
        Ok(info) => match info.addresses {
            Some(a) => match a.0.ip {
                IpSpec::V4(_) => Some(a.0),
                IpSpec::V6(_) => None,
            },
            None => None,
        },
        Err(_) => None,
    }
}

/// Offset of the application data in `d`.
pub open spec fn spec_payload_start(d: Seq<u8>) -> int {
    if spec_is_proxy_v2(d) {
        proxy_header_len(d)
    } else {
        0
    }
}

/// The application data is a TLS record (first byte 0x16).
pub open spec fn starts_tls(p: Seq<u8>) -> bool {
    p.len() > 0 && p[0] == 0x16
}

/// Protocol chosen for application data `p` on a port in `mode`.
pub open spec fn spec_detect_protocol(p: Seq<u8>, mode: ServerMode, has_cert: bool) -> Result<ProtocolType, DetectError> {
    match mode {
        ServerMode::HttpOnly => if starts_tls(p) && has_cert {
            Ok(ProtocolType::TLS)
        } else {
            Ok(ProtocolType::HTTP1_1)
        },
        ServerMode::GrpcOnly => Ok(ProtocolType::HTTP2),
        ServerMode::Mixed => if starts_tls(p) {
            Ok(ProtocolType::TLS)
        } else if spec_is_grpc_request(p) {
            if has_cert {
                Ok(ProtocolType::HTTP2)
            } else {
                Err(DetectError::GrpcRequiresCertificate)
            }
        } else {
            Ok(ProtocolType::HTTP1_1)
        },
    }
}

/// Inputs that cannot be served: a gRPC-only port without a
/// certificate, or a PROXY v2 header whose declared length runs past the
/// bytes read.
pub open spec fn detect_unservable(d: Seq<u8>, mode: ServerMode, has_cert: bool) -> bool {
    d.len() > 0 && ((spec_is_proxy_v2(d) && proxy_header_len(d) > d.len()) || (mode
        == ServerMode::GrpcOnly && !has_cert))
}

/// ASCII bytes of `HTTP/1.`.
pub open spec fn http1_marker() -> Seq<u8> {
    seq![0x48u8, 0x54, 0x54, 0x50, 0x2f, 0x31, 0x2e]
}

/// Handler chosen for a connection detected as `protocol` with application
/// data `p`.
pub open spec fn spec_route(protocol: ProtocolType, p: Seq<u8>, mode: ServerMode) -> Result<ConnectionHandler, RouteError> {
    match protocol {
        ProtocolType::HTTP1_0 | ProtocolType::HTTP1_1 | ProtocolType::Unknown => Ok(ConnectionHandler::Http1),
        ProtocolType::TLS => if mode == ServerMode::GrpcOnly {
            Ok(ConnectionHandler::GrpcTls)
        } else {
            Ok(ConnectionHandler::HttpTls)
        },
        ProtocolType::HTTP2 => if starts_tls(p) {
            if mode == ServerMode::GrpcOnly {
                Ok(ConnectionHandler::GrpcTls)
            } else {
                Ok(ConnectionHandler::HttpTls)
            }
        } else {
            Err(RouteError::CleartextHttp2)
        },
        ProtocolType::GRPC => if starts_tls(p) {
            Ok(ConnectionHandler::HttpTls)
        } else if seq_contains(p, http1_marker()) {
            Ok(ConnectionHandler::Http1)
        } else {
            Err(RouteError::CleartextGrpc)
        },
        ProtocolType::WebSocket => Err(RouteError::WebSocketUnsupported),
        _ => Err(RouteError::UnsupportedProtocol),
    }
}

/// Inputs that cannot be routed: a gRPC handler is due on a gRPC-only port
/// without a certificate.
pub open spec fn route_unservable(protocol: ProtocolType, p: Seq<u8>, mode: ServerMode, has_cert: bool) -> bool {
    spec_route(protocol, p, mode) == Ok::<ConnectionHandler, RouteError>(ConnectionHandler::GrpcTls)
        && !has_cert
}

/// Looks at the first bytes `data` of a connection (already read) and
/// decides how to route it. `Ok(None)`: the peer closed before sending
/// anything.
pub fn detect_protocol(data: &[u8], mode: ServerMode, has_tls_cert: bool) -> (r: Result<Option<DetectedConnection>, DetectError>)
    requires
        !detect_unservable(data@, mode, has_tls_cert),
    ensures
        data@.len() == 0 ==> r == Ok::<Option<DetectedConnection>, DetectError>(None),
        data@.len() > 0 ==> {
            let start = spec_payload_start(data@);
            let p = data@.subrange(start, data@.len() as int);
            match spec_detect_protocol(p, mode, has_tls_cert) {
                Ok(protocol) => r matches Ok(Some(c)) && c.protocol == protocol && c.payload_start
                    == start && match spec_proxied_client(data@) {
                    Some(a) => c.proxied_client matches Some(x) && x.spec_model() == a,
                    None => c.proxied_client is None,
                },
                Err(e) => r == Err::<Option<DetectedConnection>, DetectError>(e),
            }
        },
{
    if data.len() == 0 {
        return Ok(None);
    }
    let mut proxied_client: Option<SocketAddress> = None;
    let mut start: usize = 0;
    if ProxyProtocolV2Parser::is_proxy_v2(data) {
        match ProxyProtocolV2Parser::parse(data) {
            Ok(info) => {
                match info.addresses {
                    Some(a) => match a.src_addr.ip {
                        IpAddress::V4(_) => {
                            proxied_client = Some(a.src_addr);
                        },
                        IpAddress::V6(_) => {},
                    },
                    None => {},
                }
            },
            Err(_) => {},
        }
        start = 16 + (data[14] as usize) * 256 + (data[15] as usize);
    }
    let payload_len = data.len() - start;
    let is_tls = payload_len > 0 && data[start] == 0x16;
    let protocol = match mode {
        ServerMode::HttpOnly => {
            if is_tls && has_tls_cert {
                ProtocolType::TLS
            } else {
                ProtocolType::HTTP1_1
            }
        },
        ServerMode::GrpcOnly => ProtocolType::HTTP2,
        ServerMode::Mixed => {
            if is_tls {
                ProtocolType::TLS
            } else {
                let payload = copy_tail(data, start);
                if is_grpc_request(payload.as_slice()) {
                    if has_tls_cert {
                        ProtocolType::HTTP2
                    } else {
                        return Err(DetectError::GrpcRequiresCertificate);
                    }
                } else {
                    ProtocolType::HTTP1_1
                }
            }
        },
    };
    Ok(Some(DetectedConnection { proxied_client, payload_start: start, protocol }))
}

/// A copy of `data[start..]`.
pub fn copy_tail(data: &[u8], start: usize) -> (r: Vec<u8>)
    requires
        start <= data.len(),
    ensures
        r@ == data@.subrange(start as int, data@.len() as int),
{
    let mut r: Vec<u8> = Vec::new();
    let mut i = start;
    while i < data.len()
        invariant
            start <= i <= data.len(),
            r@ =~= data@.subrange(start as int, i as int),
        decreases data.len() - i,
    {
        r.push(data[i]);
        i = i + 1;
    }
    r
}

/// Chooses the handler for a connection detected as `protocol` whose
/// application data is `payload`.
pub fn route_by_detected_protocol(protocol: ProtocolType, payload: &[u8], mode: ServerMode, has_tls_cert: bool) -> (r: Result<ConnectionHandler, RouteError>)
    requires
        !route_unservable(protocol, payload@, mode, has_tls_cert),
    ensures
        r == spec_route(protocol, payload@, mode),
{
    let is_tls = payload.len() > 0 && payload[0] == 0x16;
    match protocol {
        ProtocolType::HTTP1_0 | ProtocolType::HTTP1_1 | ProtocolType::Unknown => Ok(ConnectionHandler::Http1),
        ProtocolType::TLS => {
            if mode == ServerMode::GrpcOnly {
                Ok(ConnectionHandler::GrpcTls)
            } else {
                Ok(ConnectionHandler::HttpTls)
            }
        },
        ProtocolType::HTTP2 => {
            if is_tls {
                if mode == ServerMode::GrpcOnly {
                    Ok(ConnectionHandler::GrpcTls)
                } else {
                    Ok(ConnectionHandler::HttpTls)
                }
            } else {
                Err(RouteError::CleartextHttp2)
            }
        },
        ProtocolType::GRPC => {
            let marker: [u8; 7] = [0x48, 0x54, 0x54, 0x50, 0x2f, 0x31, 0x2e];
            assert(marker@ =~= http1_marker());
            if is_tls {
                Ok(ConnectionHandler::HttpTls)
            } else if bytes_contains(payload, marker.as_slice()) {
                Ok(ConnectionHandler::Http1)
            } else {
                Err(RouteError::CleartextGrpc)
            }
        },
        ProtocolType::WebSocket => Err(RouteError::WebSocketUnsupported),
        _ => Err(RouteError::UnsupportedProtocol),
    }
}

// ---------------------------------------------------------------------------
// Laws
// ---------------------------------------------------------------------------

/// Connections whose application data does not start with a TLS record are
/// never handed to the gRPC service: gRPC is served over TLS only.
pub proof fn lemma_grpc_only_over_tls(p: Seq<u8>, mode: ServerMode, has_cert: bool)
    requires
        spec_detect_protocol(p, mode, has_cert) is Ok,
        spec_route(spec_detect_protocol(p, mode, has_cert).unwrap(), p, mode)
            == Ok::<ConnectionHandler, RouteError>(ConnectionHandler::GrpcTls),
    ensures
        starts_tls(p),
        mode == ServerMode::GrpcOnly,
{
}

/// On a mixed port with a certificate, a connection that opens with a TLS
/// record is always served by the TLS HTTP handler.
pub proof fn lemma_mixed_tls_served_by_http_tls(p: Seq<u8>)
    requires
        starts_tls(p),
    ensures
        spec_detect_protocol(p, ServerMode::Mixed, true) == Ok::<ProtocolType, DetectError>(ProtocolType::TLS),
        spec_route(ProtocolType::TLS, p, ServerMode::Mixed) == Ok::<ConnectionHandler, RouteError>(ConnectionHandler::HttpTls),
{
}

/// On a mixed port, cleartext data that looks like neither TLS nor gRPC is
/// served as HTTP/1.x.
pub proof fn lemma_mixed_plain_http(p: Seq<u8>, has_cert: bool)
    requires
        !starts_tls(p),
        !spec_is_grpc_request(p),
    ensures
        spec_detect_protocol(p, ServerMode::Mixed, has_cert) == Ok::<ProtocolType, DetectError>(ProtocolType::HTTP1_1),
        spec_route(ProtocolType::HTTP1_1, p, ServerMode::Mixed) == Ok::<ConnectionHandler, RouteError>(ConnectionHandler::Http1),
{
}

/// On a gRPC-only port, a connection that opens with a TLS record is
/// detected and handed to the gRPC TLS handler.
pub proof fn lemma_grpc_port_tls_served_by_grpc(p: Seq<u8>, has_cert: bool)
    requires
        starts_tls(p),
    ensures
        spec_detect_protocol(p, ServerMode::GrpcOnly, has_cert) is Ok,
        spec_route(spec_detect_protocol(p, ServerMode::GrpcOnly, has_cert).unwrap(), p, ServerMode::GrpcOnly)
            == Ok::<ConnectionHandler, RouteError>(ConnectionHandler::GrpcTls),
{
}

/// A gRPC-only port never hands a connection to an HTTP handler: whatever
/// it detects is either served by the gRPC TLS handler or refused.
pub proof fn lemma_grpc_port_never_serves_http(p: Seq<u8>, has_cert: bool)
    requires
        spec_detect_protocol(p, ServerMode::GrpcOnly, has_cert) is Ok,
    ensures
        spec_route(spec_detect_protocol(p, ServerMode::GrpcOnly, has_cert).unwrap(), p, ServerMode::GrpcOnly)
            != Ok::<ConnectionHandler, RouteError>(ConnectionHandler::HttpTls),
        spec_route(spec_detect_protocol(p, ServerMode::GrpcOnly, has_cert).unwrap(), p, ServerMode::GrpcOnly)
            != Ok::<ConnectionHandler, RouteError>(ConnectionHandler::Http1),
{
}

} // verus!

//! What each kind of TLS connection accepts from the protocol that ALPN
//! negotiated. The HTTP listener and the single-port listener serve HTTP/2
//! only; the gRPC listener also accepts a connection that negotiated nothing
//! (h2c frames inside TLS), but refuses any other protocol.

use vstd::prelude::*;

use crate::common::text::{decimal, push_decimal, push_str};
use crate::server::cert_manager::rustls_cert::{alpn_h2, negotiated_http2, AlpnProtocol};

verus! {

/// The answer sent on a TLS connection of the HTTP listener that did not
/// negotiate HTTP/2, before it is closed.
pub open spec fn upgrade_required_text() -> Seq<char> {
    "HTTP/1.1 426 Upgrade Required\r\nUpgrade: HTTP/2.0\r\nConnection: Upgrade\r\nContent-Type: text/plain; charset=utf-8\r\nContent-Length: 76\r\n\r\n426 Upgrade Required: TLS mode requires HTTP/2 protocol\r\nPlease use a client that supports HTTP/2 over TLS.\r\n"@
}

/// The answer sent on a TLS connection of the HTTP listener that did not
/// negotiate HTTP/2.
pub fn upgrade_required_response() -> (r: &'static str)
    ensures
        r@ == upgrade_required_text(),
{
    "HTTP/1.1 426 Upgrade Required\r\nUpgrade: HTTP/2.0\r\nConnection: Upgrade\r\nContent-Type: text/plain; charset=utf-8\r\nContent-Length: 76\r\n\r\n426 Upgrade Required: TLS mode requires HTTP/2 protocol\r\nPlease use a client that supports HTTP/2 over TLS.\r\n"
}

/// Whether the HTTP listener serves a TLS connection: only over HTTP/2;
/// otherwise (after sending `upgrade_required_response`) the connection fails
/// with this error.
pub fn http_tls_alpn_check(protocol: &Option<Vec<u8>>) -> (r: Result<(), String>)
    ensures
        negotiated_http2(*protocol) ==> r is Ok,
        !negotiated_http2(*protocol) ==> (r matches Err(e) && e@ == "TLS 模式只支持 HTTP/2，已发送 426 响应"@),
{
    if AlpnProtocol::is_http2(protocol) {
        Ok(())
    } else {
        Err(String::from_str("TLS 模式只支持 HTTP/2，已发送 426 响应"))
    }
}

/// Whether the single-port listener serves a TLS connection: only over
/// HTTP/2.
pub fn multi_protocol_alpn_check(protocol: &Option<Vec<u8>>) -> (r: Result<(), String>)
    ensures
        negotiated_http2(*protocol) ==> r is Ok,
        !negotiated_http2(*protocol) ==> (r matches Err(e) && e@ == "单端口多协议模式强制要求 HTTP/2"@),
{
    if AlpnProtocol::is_http2(protocol) {
        Ok(())
    } else {
        Err(String::from_str("单端口多协议模式强制要求 HTTP/2"))
    }
}

/// The bytes of a list written as `Debug` writes a `Vec<u8>`'s items:
/// decimal, separated by `, `.
pub open spec fn byte_list_text(b: Seq<u8>) -> Seq<char>
    decreases b.len(),
{
    if b.len() == 0 {
        seq![]
    } else if b.len() == 1 {
        decimal(b[0] as nat)
    } else {
        byte_list_text(b.drop_last()) + ", "@ + decimal(b.last() as nat)
    }
}

/// `Debug` text of a negotiated protocol that is present: `Some([..])`.
pub open spec fn negotiated_text(b: Seq<u8>) -> Seq<char> {
    "Some(["@ + byte_list_text(b) + "])"@
}

/// The gRPC listener's answer to a negotiated protocol: served when it is
/// HTTP/2 or absent; refused, naming it, otherwise.
pub open spec fn grpc_alpn_outcome(protocol: Option<Vec<u8>>, r: Result<(), String>) -> bool {
    match protocol {
        None => r is Ok,
        Some(p) => if p@ == alpn_h2() {
            r is Ok
        } else {
            r matches Err(e) && e@ == "gRPC 只支持 HTTP/2，客户端协商的 ALPN 协议: "@ + negotiated_text(p@)
        },
    }
}

/// Whether the gRPC listener serves a TLS connection: over HTTP/2, or when
/// nothing was negotiated; another protocol is refused, naming it.
pub fn grpc_alpn_check(protocol: &Option<Vec<u8>>) -> (r: Result<(), String>)
    ensures
        grpc_alpn_outcome(*protocol, r),
{
    match protocol {
        None => Ok(()),
        Some(p) => {
            if AlpnProtocol::is_http2(protocol) {
                assert(p@ == alpn_h2());
                Ok(())
            } else {
                let mut s = String::from_str("gRPC 只支持 HTTP/2，客户端协商的 ALPN 协议: ");
                push_str(&mut s, "Some([");
                let mut i: usize = 0;
                while i < p.len()
                    invariant
                        i <= p.len(),
                        s@ == "gRPC 只支持 HTTP/2，客户端协商的 ALPN 协议: "@ + "Some(["@ + byte_list_text(p@.subrange(0, i as int)),
                    decreases p.len() - i,
                {
                    proof {
                        assert(p@.subrange(0, i + 1).drop_last() =~= p@.subrange(0, i as int));
                    }
                    if i > 0 {
                        push_str(&mut s, ", ");
                    }
                    push_decimal(p[i] as u64, &mut s);
                    proof {
                        if i == 0 {
                            assert(byte_list_text(p@.subrange(0, 0)) =~= Seq::<char>::empty());
                        }
                    }
                    assert(s@ =~= "gRPC 只支持 HTTP/2，客户端协商的 ALPN 协议: "@ + "Some(["@ + byte_list_text(p@.subrange(0, i + 1)));
                    i = i + 1;
                }
                push_str(&mut s, "])");
                assert(p@.subrange(0, p@.len() as int) =~= p@);
                assert(s@ =~= "gRPC 只支持 HTTP/2，客户端协商的 ALPN 协议: "@ + negotiated_text(p@));
                Err(s)
            }
        },
    }
}

} // verus!

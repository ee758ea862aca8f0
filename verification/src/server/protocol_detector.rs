//! Detection of gRPC requests from the first bytes of a connection.

use vstd::prelude::*;
use crate::common::bytes::{bytes_contains, seq_contains};

verus! {

/// ASCII bytes of `content-type:`.
pub open spec fn content_type_lower() -> Seq<u8> {
    seq![0x63u8, 0x6f, 0x6e, 0x74, 0x65, 0x6e, 0x74, 0x2d, 0x74, 0x79, 0x70, 0x65, 0x3a]
}

/// ASCII bytes of `Content-Type:`.
pub open spec fn content_type_capital() -> Seq<u8> {
    seq![0x43u8, 0x6f, 0x6e, 0x74, 0x65, 0x6e, 0x74, 0x2d, 0x54, 0x79, 0x70, 0x65, 0x3a]
}

/// ASCII bytes of `application/grpc`.
pub open spec fn application_grpc() -> Seq<u8> {
    seq![0x61u8, 0x70, 0x70, 0x6c, 0x69, 0x63, 0x61, 0x74, 0x69, 0x6f, 0x6e, 0x2f, 0x67, 0x72, 0x70, 0x63]
}

/// Largest gRPC message length (exclusive) accepted as a plausible frame.
pub open spec fn grpc_frame_limit() -> int {
    16777216int
}

/// The first five bytes look like a gRPC frame header (compression flag 0
/// or 1 and a length under 16 MiB) and the whole message is present.
pub open spec fn looks_like_grpc_frame(d: Seq<u8>) -> bool {
    &&& d.len() >= 5
    &&& (d[0] == 0 || d[0] == 1)
    &&& {
        let len = d[1] as int * 16777216 + d[2] as int * 65536 + d[3] as int * 256 + d[4] as int;
        len < grpc_frame_limit() && d.len() >= 5 + len
    }
}

/// Meaning of `is_grpc_request`: a TLS record (first byte 0x16) is never
/// gRPC; text carrying a content-type header is gRPC exactly when it
/// mentions `application/grpc`; otherwise a complete gRPC frame is.
///
/// The searches are over bytes: every pattern is ASCII, and an ASCII
/// sequence occurs in the lossy UTF-8 text exactly when it occurs in the
/// bytes.
pub open spec fn spec_is_grpc_request(d: Seq<u8>) -> bool {
    if d.len() == 0 {
        false
    } else if d[0] == 0x16 {
        false
    } else if seq_contains(d, content_type_lower()) || seq_contains(d, content_type_capital()) {
        seq_contains(d, application_grpc())
    } else {
        looks_like_grpc_frame(d)
    }
}

/// Whether the first bytes of a connection are a gRPC request.
pub fn is_grpc_request(data: &[u8]) -> (r: bool)
    ensures
        r == spec_is_grpc_request(data@),
{
    if data.len() == 0 {
        return false;
    }
    if data[0] == 0x16 {
        return false;
    }
    let ct_lower: [u8; 13] = [0x63, 0x6f, 0x6e, 0x74, 0x65, 0x6e, 0x74, 0x2d, 0x74, 0x79, 0x70, 0x65, 0x3a];
    let ct_capital: [u8; 13] = [0x43, 0x6f, 0x6e, 0x74, 0x65, 0x6e, 0x74, 0x2d, 0x54, 0x79, 0x70, 0x65, 0x3a];
    let grpc: [u8; 16] = [0x61, 0x70, 0x70, 0x6c, 0x69, 0x63, 0x61, 0x74, 0x69, 0x6f, 0x6e, 0x2f, 0x67, 0x72, 0x70, 0x63];
    assert(ct_lower@ =~= content_type_lower());
    assert(ct_capital@ =~= content_type_capital());
    assert(grpc@ =~= application_grpc());
    if bytes_contains(data, ct_lower.as_slice()) || bytes_contains(data, ct_capital.as_slice()) {
        return bytes_contains(data, grpc.as_slice());
    }
    if data.len() >= 5 {
        let compressed_flag = data[0];
        if compressed_flag == 0 || compressed_flag == 1 {
            let length: u64 = (data[1] as u64) * 16777216 + (data[2] as u64) * 65536 + (data[3] as u64) * 256 + (data[4] as u64);
            if length < 16 * 1024 * 1024 && (data.len() as u64) >= 5 + length {
                return true;
            }
        }
    }
    false
}

} // verus!

//! Telling a client that went away from a real failure, by the text of the
//! error a connection or stream ended with. A client that went away is
//! logged and otherwise ignored; a real failure is reported.

use vstd::prelude::*;

use crate::common::text::{concat, str_contains, text_contains};

verus! {

/// Serving HTTP/2 over TLS ended because the client went away.
pub open spec fn tls_client_left(t: Seq<char>) -> bool {
    ||| text_contains(t, "connection closed"@)
    ||| text_contains(t, "broken pipe"@)
    ||| text_contains(t, "connection reset"@)
    ||| text_contains(t, "unexpected end of file"@)
    ||| text_contains(t, "CANCELED"@)
}

/// Serving a cleartext HTTP connection ended because the client went away.
pub open spec fn http1_client_left(t: Seq<char>) -> bool {
    ||| text_contains(t, "connection closed before message completed"@)
    ||| text_contains(t, "broken pipe"@)
    ||| text_contains(t, "connection reset by peer"@)
    ||| text_contains(t, "unexpected end of file"@)
}

/// A connection task of the separated-port server ended because the client
/// went away (logged at debug level rather than as an error).
pub open spec fn listener_client_left(t: Seq<char>) -> bool {
    text_contains(t, "IncompleteMessage"@) || text_contains(t, "connection closed"@)
}

/// Reading a request stream failed because the client went away; the
/// stream then simply ends.
pub open spec fn request_stream_client_left(t: Seq<char>) -> bool {
    ||| text_contains(t, "stream no longer needed"@)
    ||| text_contains(t, "connection closed"@)
    ||| text_contains(t, "reset"@)
    ||| text_contains(t, "broken pipe"@)
}

/// Whether serving HTTP/2 over TLS ended because the client went away.
pub fn is_tls_client_left(t: &str) -> (r: bool)
    ensures
        r == tls_client_left(t@),
{
    str_contains(t, "connection closed") || str_contains(t, "broken pipe") || str_contains(t, "connection reset")
        || str_contains(t, "unexpected end of file") || str_contains(t, "CANCELED")
}

/// Whether serving a cleartext HTTP connection ended because the client went
/// away.
pub fn is_http1_client_left(t: &str) -> (r: bool)
    ensures
        r == http1_client_left(t@),
{
    str_contains(t, "connection closed before message completed") || str_contains(t, "broken pipe")
        || str_contains(t, "connection reset by peer") || str_contains(t, "unexpected end of file")
}

/// Whether a connection task of the separated-port server ended because the
/// client went away.
pub fn is_listener_client_left(t: &str) -> (r: bool)
    ensures
        r == listener_client_left(t@),
{
    str_contains(t, "IncompleteMessage") || str_contains(t, "connection closed")
}

/// Whether reading a request stream failed because the client went away.
pub fn is_request_stream_client_left(t: &str) -> (r: bool)
    ensures
        r == request_stream_client_left(t@),
{
    str_contains(t, "stream no longer needed") || str_contains(t, "connection closed") || str_contains(t, "reset")
        || str_contains(t, "broken pipe")
}

/// How serving HTTP/2 over TLS ended: fine when it ended without error or
/// because the client went away; otherwise the failure, with its text.
pub fn tls_serve_outcome(error: Option<&str>) -> (r: Result<(), String>)
    ensures
        match error {
            None => r is Ok,
            Some(e) => if tls_client_left(e@) {
                r is Ok
            } else {
                r matches Err(s) && s@ == "HTTP/2 over TLS 连接处理失败: "@ + e@
            },
        },
{
    match error {
        None => Ok(()),
        Some(e) => {
            if is_tls_client_left(e) {
                Ok(())
            } else {
                Err(concat("HTTP/2 over TLS 连接处理失败: ", e))
            }
        },
    }
}

/// How serving a cleartext HTTP connection ended: fine when it ended without
/// error or because the client went away; otherwise the failure, with its
/// text.
pub fn http1_serve_outcome(error: Option<&str>) -> (r: Result<(), String>)
    ensures
        match error {
            None => r is Ok,
            Some(e) => if http1_client_left(e@) {
                r is Ok
            } else {
                r matches Err(s) && s@ == "HTTP/1.1 连接处理失败: "@ + e@
            },
        },
{
    match error {
        None => Ok(()),
        Some(e) => {
            if is_http1_client_left(e) {
                Ok(())
            } else {
                Err(concat("HTTP/1.1 连接处理失败: ", e))
            }
        },
    }
}

/// A reset connection counts as a client leaving wherever it is read: when a
/// cleartext connection or a request stream reports it, so does TLS serving.
pub proof fn lemma_reset_by_peer_is_client_left(t: Seq<char>)
    requires
        text_contains(t, "connection reset by peer"@),
    ensures
        http1_client_left(t),
        tls_client_left(t),
        request_stream_client_left(t),
{
    let i = choose|i: int| crate::common::text::text_occurs_at(t, "connection reset by peer"@, i);
    reveal_strlit("connection reset by peer");
    reveal_strlit("connection reset");
    reveal_strlit("reset");
    assert(crate::common::text::text_occurs_at(t, "connection reset"@, i));
    assert forall|k: int| 0 <= k < 5 implies #[trigger] t[(i + 11) + k] == "reset"@[k] by {
        assert(t[i + (11 + k)] == "connection reset by peer"@[11 + k]);
        assert((i + 11) + k == i + (11 + k));
    }
    assert(crate::common::text::text_occurs_at(t, "reset"@, i + 11));
}

} // verus!

//! Which registered handler serves a gRPC request.

use vstd::prelude::*;

verus! {

/// The four kinds of gRPC handlers.
#[derive(Debug, Clone, Copy, PartialEq, Eq, Structural)]
pub enum GrpcHandlerKind {
    Unary,
    ServerStream,
    ClientStream,
    Bidirectional,
}

/// Which kinds of handler are registered for a method.
#[derive(Debug, Clone, Copy, PartialEq, Eq, Structural)]
pub struct RegisteredKinds {
    pub unary: bool,
    pub server_stream: bool,
    pub client_stream: bool,
    pub bidirectional: bool,
}

/// Handler chosen for a method: the first registered kind in the order
/// unary, server stream, client stream, bidirectional. When requests are
/// delegated to the worker queue, client-stream handlers are not served.
pub open spec fn spec_select_handler(lockfree: bool, k: RegisteredKinds) -> Option<GrpcHandlerKind> {
    if k.unary {
        Some(GrpcHandlerKind::Unary)
    } else if k.server_stream {
        Some(GrpcHandlerKind::ServerStream)
    } else if k.client_stream && !lockfree {
        Some(GrpcHandlerKind::ClientStream)
    } else if k.bidirectional {
        Some(GrpcHandlerKind::Bidirectional)
    } else {
        None
    }
}

/// Chooses the handler kind for a method with the registered kinds `k`;
/// `None` means the method is answered as unimplemented.
pub fn select_handler(lockfree: bool, k: RegisteredKinds) -> (r: Option<GrpcHandlerKind>)
    ensures
        r == spec_select_handler(lockfree, k),
{
    if k.unary {
        Some(GrpcHandlerKind::Unary)
    } else if k.server_stream {
        Some(GrpcHandlerKind::ServerStream)
    } else if k.client_stream && !lockfree {
        Some(GrpcHandlerKind::ClientStream)
    } else if k.bidirectional {
        Some(GrpcHandlerKind::Bidirectional)
    } else {
        None
    }
}

/// Why a request path is not a gRPC method name.
#[derive(Debug, Clone, Copy, PartialEq, Eq, Structural)]
pub enum GrpcMethodError {
    /// The path does not start with `/`.
    InvalidPath,
}

/// The gRPC method named by a request path: the whole path, leading `/`
/// included, when it starts with `/`.
pub fn extract_grpc_method(path: &str) -> (r: Result<String, GrpcMethodError>)
    ensures
        path@.len() > 0 && path@[0] == '/' ==> (r matches Ok(m) && m@ == path@),
        !(path@.len() > 0 && path@[0] == '/') ==> r == Err::<String, GrpcMethodError>(GrpcMethodError::InvalidPath),
{
    if path.unicode_len() > 0 && path.get_char(0) == '/' {
        Ok(String::from_str(path))
    } else {
        Err(GrpcMethodError::InvalidPath)
    }
}

// ---------------------------------------------------------------------------
// Laws
// ---------------------------------------------------------------------------

/// A method with a unary handler is always served by it, in either mode.
pub proof fn lemma_unary_first(lockfree: bool, k: RegisteredKinds)
    requires
        k.unary,
    ensures
        spec_select_handler(lockfree, k) == Some(GrpcHandlerKind::Unary),
{
}

/// A method is answered as unimplemented exactly when no handler kind that
/// the mode serves is registered for it.
pub proof fn lemma_unimplemented_iff_none(lockfree: bool, k: RegisteredKinds)
    ensures
        spec_select_handler(lockfree, k) is None <==> (!k.unary && !k.server_stream
            && !k.bidirectional && (lockfree || !k.client_stream)),
{
}

} // verus!

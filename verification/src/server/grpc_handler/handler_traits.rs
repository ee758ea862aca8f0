//! Adapters between handler shapes.

use std::marker::PhantomData;

use vstd::prelude::*;

verus! {

/// Wraps a handler that streams typed messages so that it can serve where a
/// handler of serialized messages is expected (the serializing itself is
/// done by the caller's codec).
pub struct TypedServerStreamAdapter<T, H> {
    handler: H,
    _phantom: PhantomData<T>,
}

impl<T, H> TypedServerStreamAdapter<T, H> {
    /// The wrapped handler.
    pub closed spec fn inner(&self) -> H {
        self.handler
    }

    /// Wraps `handler`.
    pub fn new(handler: H) -> (r: Self)
        ensures
            r.inner() == handler,
    {
        TypedServerStreamAdapter { handler, _phantom: PhantomData }
    }
}

} // verus!

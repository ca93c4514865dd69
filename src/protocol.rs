//! The typed message layer's handle on a transport. Serialising messages and
//! driving the transport are left to the caller's runtime.

use vstd::prelude::*;

verus! {

/// A transport on which whole messages are sent and received.
pub struct Protocol<T> {
    transport: T,
}

impl<T> Protocol<T> {
    /// The underlying transport.
    pub closed spec fn spec_transport(&self) -> T {
        self.transport
    }

    /// A protocol over `transport`.
    pub fn new(transport: T) -> (r: Protocol<T>)
        ensures
            r.spec_transport() == transport,
    {
        Protocol { transport }
    }

    /// The transport, to send on or receive from.
    pub fn transport_mut(&mut self) -> (r: &mut T)
        ensures
            *r == old(self).spec_transport(),
            final(self).spec_transport() == *final(r),
    {
        &mut self.transport
    }
}

} // verus!

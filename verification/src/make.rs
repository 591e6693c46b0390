use vstd::prelude::*;
use core::marker::PhantomData;

verus! {

/// Hand one shared node out per connection: a factory that answers every
/// request for a service with a copy of the node it holds. The transport
/// side that drives it stands outside the library.
pub struct Make<S, T> {
    /// The node handed out.
    pub inner: S,
    /// Which request type the node serves.
    pub request: PhantomData<T>,
}

impl<S, T> Make<S, T> {
    /// A factory around one node.
    pub fn new(inner: S) -> (r: Make<S, T>)
        ensures
            r.inner == inner,
    {
        Make { inner, request: PhantomData }
    }
}

impl<S: Clone, T> Clone for Make<S, T> {
    fn clone(&self) -> (r: Self) {
        Make { inner: self.inner.clone(), request: PhantomData }
    }
}

} // verus!

use vstd::prelude::*;
use crate::error::Error;

verus! {

/// A parameter bundle that can be built from a request alone, with no
/// per-route data: it decides by itself whether a request matches.
///
/// [`Error::Path`] is the failure when the path does not match and
/// [`Error::Method`] when only the method does not; [`Error::Prefix`] is
/// reserved for mount delegation.
pub trait Param<T>: Sized {
    /// The error this bundle reports for `req`, or nothing when it
    /// matches.
    spec fn spec_err(req: T) -> Option<Error>;

    /// Whether `p` is the bundle that `req` produces.
    spec fn spec_ok(req: T, p: Self) -> bool;

    /// Construct the bundle from a request.
    fn from_request(req: &T) -> (r: Result<Self, Error>)
        ensures
            match r {
                Ok(p) => Self::spec_err(*req) is None && Self::spec_ok(*req, p),
                Err(e) => Self::spec_err(*req) == Some(e),
            },
    ;
}

} // verus!

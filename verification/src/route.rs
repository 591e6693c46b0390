use vstd::prelude::*;
use crate::error::Error;

verus! {

/// Whether `out` is the outcome of a failed match: an error, and — as far
/// as the conversion into `E` is specified — exactly `e` converted.
pub open spec fn match_failed<U, E: From<Error>>(e: Error, out: Result<U, E>) -> bool {
    &&& out is Err
    &&& (<E as vstd::std_specs::convert::FromSpec<Error>>::obeys_from_spec() ==> out == Err::<
        U,
        E,
    >(<E as vstd::std_specs::convert::FromSpec<Error>>::from_spec(e)))
}

/// The handle-one-request capability that every composition node offers:
/// accept one request, produce one outcome. The composed tree is shared
/// read-only, so handling borrows the node and never changes it.
pub trait Handle<T> {
    /// What a handler produces on success.
    type Response;

    /// The error type of the outcome; a failed match is converted into
    /// it.
    type Err;

    /// What this node asks of a request before it can be handled: in
    /// particular, that the handlers it wraps accept it.
    spec fn pre(&self, req: T) -> bool;

    /// What holds of the outcome of handling `req`.
    spec fn post(&self, req: T, out: Result<Self::Response, Self::Err>) -> bool;

    /// Handle one request.
    fn call(&self, req: T) -> (out: Result<Self::Response, Self::Err>)
        requires
            self.pre(req),
        ensures
            self.post(req, out),
    ;
}

/// A route: a node whose matching can be asked separately from its
/// dispatch, so that alternation can try it without running its handler.
pub trait Route<T>: Handle<T> {
    /// The parameter bundle a successful match produces.
    type P;

    /// The error this route reports for `req`, or nothing when it
    /// matches.
    spec fn match_err(&self, req: T) -> Option<Error>;

    /// Whether `p` is the bundle that matching `req` produces.
    spec fn match_ok(&self, req: T, p: Self::P) -> bool;

    /// What holds of the outcome of dispatching `req` with the bundle
    /// `p`.
    spec fn post_with(&self, req: T, p: Self::P, out: Result<Self::Response, Self::Err>) -> bool;

    /// Match `req` without dispatching it.
    fn param(&self, req: &T) -> (r: Result<Self::P, Error>)
        ensures
            match r {
                Ok(p) => self.match_err(*req) is None && self.match_ok(*req, p),
                Err(e) => self.match_err(*req) == Some(e),
            },
    ;

    /// Dispatch `req` with an already-extracted bundle; the bundle is
    /// never re-validated.
    fn call_with_param(&self, req: T, p: Self::P) -> (out: Result<Self::Response, Self::Err>)
        requires
            self.pre(req),
            self.match_ok(req, p),
        ensures
            self.post_with(req, p, out),
    ;
}

} // verus!

use vstd::prelude::*;
use crate::error::Error;
use crate::param;
use crate::request::{prefix_removable, PathReq, RemovePrefix};
use crate::route::{match_failed, Handle, Route};
use crate::strutil::{contains_char, starts_with_str};

verus! {

/// Prefix delegation: a request whose path starts with the prefix is
/// rewritten with the prefix stripped and handed to the inner node; its
/// outcome passes through unchanged. Any other request fails with
/// [`Error::Prefix`].
#[derive(Clone)]
pub struct Mount<S> {
    /// The node that handles the rewritten request.
    pub inner: S,
    /// The validated, already-trimmed prefix.
    pub prefix: String,
}

impl<S> Mount<S> {
    /// Delegate a subtree to `inner` under `prefix`.
    pub fn new<T, E>(inner: S, prefix: String) -> (r: Mount<S>) where
        S: Handle<T, Err = E>,
        T: PathReq + RemovePrefix,
        E: From<Error>,

        ensures
            r.inner == inner,
            r.prefix == prefix,
    {
        Mount { inner, prefix }
    }
}

impl<T, S> Handle<T> for Mount<S> where
    S: Handle<T>,
    T: PathReq + RemovePrefix,
    S::Err: From<Error>,
 {
    type Response = S::Response;

    type Err = S::Err;

    /// The inner node must accept every rewriting of the request.
    open spec fn pre(&self, req: T) -> bool {
        forall|r2: T| req.spec_rewritten(self.prefix@, r2) ==> self.inner.pre(r2)
    }

    /// When the prefix can be stripped, the outcome is the inner node's
    /// outcome on the rewritten request; otherwise `Error::Prefix`,
    /// converted.
    open spec fn post(&self, req: T, out: Result<S::Response, S::Err>) -> bool {
        if prefix_removable(req.spec_path(), self.prefix@) {
            exists|r2: T| req.spec_rewritten(self.prefix@, r2) && self.inner.post(r2, out)
        } else {
            match_failed(Error::Prefix, out)
        }
    }

    fn call(&self, req: T) -> (out: Result<S::Response, S::Err>) {
        match req.remove_prefix(self.prefix.as_str()) {
            Err(e) => Err(<S::Err as From<Error>>::from(e)),
            Ok(r2) => self.inner.call(r2),
        }
    }
}

impl<T, S> Route<T> for Mount<S> where
    S: Handle<T>,
    T: PathReq + RemovePrefix,
    S::Err: From<Error>,
 {
    type P = Param;

    open spec fn match_err(&self, req: T) -> Option<Error> {
        if prefix_removable(req.spec_path(), self.prefix@) {
            None
        } else {
            Some(Error::Prefix)
        }
    }

    open spec fn match_ok(&self, req: T, p: Param) -> bool {
        prefix_removable(req.spec_path(), self.prefix@)
    }

    open spec fn post_with(&self, req: T, p: Param, out: Result<S::Response, S::Err>) -> bool {
        exists|r2: T| req.spec_rewritten(self.prefix@, r2) && self.inner.post(r2, out)
    }

    fn param(&self, req: &T) -> (r: Result<Param, Error>) {
        if contains_char(self.prefix.as_str(), '?') {
            return Err(Error::Prefix);
        }
        if starts_with_str(req.path(), self.prefix.as_str()) {
            Ok(Param)
        } else {
            Err(Error::Prefix)
        }
    }

    fn call_with_param(&self, req: T, p: Param) -> (out: Result<S::Response, S::Err>) {
        match req.remove_prefix(self.prefix.as_str()) {
            Err(e) => Err(<S::Err as From<Error>>::from(e)),
            Ok(r2) => self.inner.call(r2),
        }
    }
}

/// The parameter bundle of [`Mount`]: delegation extracts nothing
/// itself, the inner node does its own matching.
#[derive(Clone, Copy, Debug)]
pub struct Param;

impl<T> param::Param<T> for Param {
    open spec fn spec_err(req: T) -> Option<Error> {
        None
    }

    open spec fn spec_ok(req: T, p: Self) -> bool {
        true
    }

    fn from_request(req: &T) -> (r: Result<Self, Error>) {
        Ok(Param)
    }
}

} // verus!

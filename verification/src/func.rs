use vstd::prelude::*;
use core::marker::PhantomData;
use crate::engine::{spec_extract, Extracted, Extractor};
use crate::error::Error;
use crate::request::{MethodReq, PathReq};
use crate::route::{match_failed, Handle, Route};

verus! {

/// Wrap one handler and its compiled route into a leaf of the
/// composition tree. Matching runs the engine on the request's path and
/// method; on success the handler is called with the request and the
/// extracted bundle, on failure the error is converted and returned at
/// once.
pub struct Func<F, U, E> {
    /// The compiled route that decides whether a request matches.
    pub route: Extractor,
    /// The handler.
    pub inner: F,
    /// What the handler produces on success.
    pub resp: PhantomData<U>,
    /// The handler's error type.
    pub err: PhantomData<E>,
}

impl<F, U, E> Func<F, U, E> {
    /// A leaf from a compiled route and a handler.
    pub fn new<T>(route: Extractor, inner: F) -> (r: Func<F, U, E>) where
        T: PathReq + MethodReq,
        E: From<Error>,
        F: Fn(T, Extracted) -> Result<U, E>,

        ensures
            r.route == route,
            r.inner == inner,
    {
        Func { route, inner, resp: PhantomData, err: PhantomData }
    }
}

impl<F: Clone, U, E> Clone for Func<F, U, E> {
    fn clone(&self) -> (r: Self) {
        Func { route: self.route.clone(), inner: self.inner.clone(), resp: PhantomData, err: PhantomData }
    }
}

impl<T, F, U, E> Handle<T> for Func<F, U, E> where
    T: PathReq + MethodReq,
    E: From<Error>,
    F: Fn(T, Extracted) -> Result<U, E>,
 {
    type Response = U;

    type Err = E;

    /// The handler must accept whatever bundle the route extracts.
    open spec fn pre(&self, req: T) -> bool {
        forall|ex: Extracted|
            spec_extract(self.route.model(), req.spec_path(), req.spec_method()) == Ok::<_, Error>(
                ex.model(),
            ) ==> call_requires(self.inner, (req, ex))
    }

    /// A match hands the request and its bundle to the handler, whose
    /// own contract then bounds the outcome; a mismatch converts the
    /// engine's error.
    open spec fn post(&self, req: T, out: Result<U, E>) -> bool {
        match spec_extract(self.route.model(), req.spec_path(), req.spec_method()) {
            Ok(bs) => exists|ex: Extracted|
                ex.model() == bs && call_ensures(self.inner, (req, ex), out),
            Err(e) => match_failed(e, out),
        }
    }

    fn call(&self, req: T) -> (out: Result<U, E>) {
        let r = self.route.extract(req.path(), req.method());
        match r {
            Ok(ex) => (self.inner)(req, ex),
            Err(e) => Err(E::from(e)),
        }
    }
}

impl<T, F, U, E> Route<T> for Func<F, U, E> where
    T: PathReq + MethodReq,
    E: From<Error>,
    F: Fn(T, Extracted) -> Result<U, E>,
 {
    type P = Extracted;

    open spec fn match_err(&self, req: T) -> Option<Error> {
        match spec_extract(self.route.model(), req.spec_path(), req.spec_method()) {
            Ok(bs) => None,
            Err(e) => Some(e),
        }
    }

    open spec fn match_ok(&self, req: T, p: Extracted) -> bool {
        spec_extract(self.route.model(), req.spec_path(), req.spec_method()) == Ok::<_, Error>(
            p.model(),
        )
    }

    open spec fn post_with(&self, req: T, p: Extracted, out: Result<U, E>) -> bool {
        call_ensures(self.inner, (req, p), out)
    }

    fn param(&self, req: &T) -> (r: Result<Extracted, Error>) {
        self.route.extract(req.path(), req.method())
    }

    fn call_with_param(&self, req: T, p: Extracted) -> (out: Result<U, E>) {
        (self.inner)(req, p)
    }
}

/// Open a leaf's precondition up for callers: a leaf accepts a request
/// as soon as its handler accepts every bundle the route can extract
/// from it. (At a concrete handler type the verifier does not unfold the
/// leaf's trait contract by itself; this lemma does it.)
pub proof fn lemma_func_pre<T, F, U, E>(f: &Func<F, U, E>, req: T) where
    T: PathReq + MethodReq,
    E: From<Error>,
    F: Fn(T, Extracted) -> Result<U, E>,

    requires
        forall|ex: Extracted|
            spec_extract(f.route.model(), req.spec_path(), req.spec_method()) == Ok::<_, Error>(
                ex.model(),
            ) ==> call_requires(f.inner, (req, ex)),
    ensures
        f.pre(req),
{
}

/// Open a leaf's postcondition up for callers: what its outcome means in
/// terms of the engine and the handler's own contract.
pub proof fn lemma_func_post<T, F, U, E>(f: &Func<F, U, E>, req: T, out: Result<U, E>) where
    T: PathReq + MethodReq,
    E: From<Error>,
    F: Fn(T, Extracted) -> Result<U, E>,

    requires
        f.post(req, out),
    ensures
        match spec_extract(f.route.model(), req.spec_path(), req.spec_method()) {
            Ok(bs) => exists|ex: Extracted|
                ex.model() == bs && call_ensures(f.inner, (req, ex), out),
            Err(e) => match_failed(e, out),
        },
{
}

} // verus!

use vstd::prelude::*;
use core::marker::PhantomData;
use crate::error::Error;
use crate::param;
use crate::route::{Handle, Route};

verus! {

/// The route that matches nothing: every request fails with
/// [`Error::Path`]. Useful as the empty base of a router.
pub struct Void<T, U> {
    req: PhantomData<T>,
    res: PhantomData<U>,
}

impl<T, U> Void<T, U> {
    /// The route that matches nothing.
    pub fn new() -> (r: Void<T, U>) {
        Void { req: PhantomData, res: PhantomData }
    }
}

impl<T, U> Clone for Void<T, U> {
    fn clone(&self) -> (r: Self) {
        Void { req: PhantomData, res: PhantomData }
    }
}

impl<T, U> Handle<T> for Void<T, U> {
    type Response = U;

    type Err = Error;

    open spec fn pre(&self, req: T) -> bool {
        true
    }

    open spec fn post(&self, req: T, out: Result<U, Error>) -> bool {
        out == Err::<U, Error>(Error::Path)
    }

    fn call(&self, req: T) -> (out: Result<U, Error>) {
        Err(Error::Path)
    }
}

impl<T, U> Route<T> for Void<T, U> {
    type P = Param;

    open spec fn match_err(&self, req: T) -> Option<Error> {
        Some(Error::Path)
    }

    open spec fn match_ok(&self, req: T, p: Param) -> bool {
        false
    }

    open spec fn post_with(&self, req: T, p: Param, out: Result<U, Error>) -> bool {
        out == Err::<U, Error>(Error::Path)
    }

    fn param(&self, req: &T) -> (r: Result<Param, Error>) {
        Err(Error::Path)
    }

    fn call_with_param(&self, req: T, p: Param) -> (out: Result<U, Error>) {
        Err(Error::Path)
    }
}

/// The parameter bundle of [`Void`]: no request produces it.
#[derive(Clone, Copy, Debug)]
pub struct Param;

impl<T> param::Param<T> for Param {
    open spec fn spec_err(req: T) -> Option<Error> {
        Some(Error::Path)
    }

    open spec fn spec_ok(req: T, p: Self) -> bool {
        false
    }

    fn from_request(req: &T) -> (r: Result<Self, Error>) {
        Err(Error::Path)
    }
}

} // verus!

use vstd::prelude::*;
use crate::error::Error;
use crate::param;
use crate::route::{match_failed, Handle, Route};

verus! {

/// The parameter bundle of an alternation: whichever side matched,
/// tagged with the side, so that dispatch reuses the bundle without
/// re-validating it.
#[derive(Clone, Copy, Debug)]
pub enum Param<L, R> {
    /// The left branch matched.
    Left(L),
    /// The right branch matched.
    Right(R),
}

impl<L, R, T> param::Param<T> for Param<L, R> where
    L: param::Param<T>,
    R: param::Param<T>,
 {
    /// Left is tried first; when both fail, the smaller error under
    /// `Path < Method < Prefix` is reported.
    open spec fn spec_err(req: T) -> Option<Error> {
        match (L::spec_err(req), R::spec_err(req)) {
            (None, _) => None,
            (Some(e1), None) => None,
            (Some(e1), Some(e2)) => Some(e1.spec_min(e2)),
        }
    }

    open spec fn spec_ok(req: T, p: Self) -> bool {
        match p {
            Param::Left(lp) => L::spec_err(req) is None && L::spec_ok(req, lp),
            Param::Right(rp) => L::spec_err(req) is Some && R::spec_err(req) is None
                && R::spec_ok(req, rp),
        }
    }

    fn from_request(req: &T) -> (r: Result<Self, Error>) {
        let e1 = match L::from_request(req) {
            Ok(data) => {
                return Ok(Param::Left(data));
            },
            Err(e) => e,
        };
        let e2 = match R::from_request(req) {
            Ok(data) => {
                return Ok(Param::Right(data));
            },
            Err(e) => e,
        };
        Err(e1.min(e2))
    }
}

/// Alternation: try the left route; only when it fails, try the right
/// one. When both fail, report the smaller of the two errors under the
/// order `Path < Method < Prefix`.
#[derive(Clone)]
pub struct Or<L, R> {
    /// The branch tried first.
    pub left: L,
    /// The branch tried when the left one fails.
    pub right: R,
}

impl<L, R> Or<L, R> {
    /// An alternation over two routes that share response and error
    /// types.
    pub fn new<T, U, E>(left: L, right: R) -> (r: Or<L, R>) where
        L: Route<T, Response = U, Err = E>,
        R: Route<T, Response = U, Err = E>,
        E: From<Error>,

        ensures
            r.left == left,
            r.right == right,
    {
        Or { left, right }
    }
}

impl<T, L, R> Handle<T> for Or<L, R> where
    L: Route<T>,
    R: Route<T, Response = L::Response, Err = L::Err>,
    L::Err: From<Error>,
 {
    type Response = L::Response;

    type Err = L::Err;

    open spec fn pre(&self, req: T) -> bool {
        self.left.pre(req) && self.right.pre(req)
    }

    /// Dispatch goes to the leftmost branch that matches; when neither
    /// does, the outcome is the converted minimum of the two errors.
    open spec fn post(&self, req: T, out: Result<L::Response, L::Err>) -> bool {
        match (self.left.match_err(req), self.right.match_err(req)) {
            (None, _) => exists|lp: L::P|
                self.left.match_ok(req, lp) && self.left.post_with(req, lp, out),
            (Some(e1), None) => exists|rp: R::P|
                self.right.match_ok(req, rp) && self.right.post_with(req, rp, out),
            (Some(e1), Some(e2)) => match_failed(e1.spec_min(e2), out),
        }
    }

    fn call(&self, req: T) -> (out: Result<L::Response, L::Err>) {
        match self.param(&req) {
            Err(e) => Err(<L::Err as From<Error>>::from(e)),
            Ok(p) => self.call_with_param(req, p),
        }
    }
}

impl<T, L, R> Route<T> for Or<L, R> where
    L: Route<T>,
    R: Route<T, Response = L::Response, Err = L::Err>,
    L::Err: From<Error>,
 {
    type P = Param<L::P, R::P>;

    open spec fn match_err(&self, req: T) -> Option<Error> {
        match (self.left.match_err(req), self.right.match_err(req)) {
            (None, _) => None,
            (Some(e1), None) => None,
            (Some(e1), Some(e2)) => Some(e1.spec_min(e2)),
        }
    }

    open spec fn match_ok(&self, req: T, p: Param<L::P, R::P>) -> bool {
        match p {
            Param::Left(lp) => self.left.match_err(req) is None && self.left.match_ok(req, lp),
            Param::Right(rp) => self.left.match_err(req) is Some && self.right.match_err(req)
                is None && self.right.match_ok(req, rp),
        }
    }

    open spec fn post_with(&self, req: T, p: Param<L::P, R::P>, out: Result<L::Response, L::Err>) -> bool {
        match p {
            Param::Left(lp) => self.left.post_with(req, lp, out),
            Param::Right(rp) => self.right.post_with(req, rp, out),
        }
    }

    fn param(&self, req: &T) -> (r: Result<Param<L::P, R::P>, Error>) {
        let e1 = match self.left.param(req) {
            Ok(lp) => {
                return Ok(Param::Left(lp));
            },
            Err(e) => e,
        };
        let e2 = match self.right.param(req) {
            Ok(rp) => {
                return Ok(Param::Right(rp));
            },
            Err(e) => e,
        };
        Err(e1.min(e2))
    }

    fn call_with_param(&self, req: T, p: Param<L::P, R::P>) -> (out: Result<L::Response, L::Err>) {
        match p {
            Param::Left(lp) => self.left.call_with_param(req, lp),
            Param::Right(rp) => self.right.call_with_param(req, rp),
        }
    }
}

/// Left-to-right priority: when the left branch matches, dispatch goes
/// to it, whatever the right branch would say — the first route that
/// matches, in order of addition, wins.
pub proof fn lemma_or_left_wins<T, L, R>(
    or: &Or<L, R>,
    req: T,
    out: Result<L::Response, L::Err>,
) where
    L: Route<T>,
    R: Route<T, Response = L::Response, Err = L::Err>,
    L::Err: From<Error>,

    requires
        or.left.match_err(req) is None,
        or.post(req, out),
    ensures
        exists|lp: L::P| or.left.match_ok(req, lp) && or.left.post_with(req, lp, out),
{
}

/// Tie-break: when both branches fail, the alternation reports the
/// smaller error under `Path < Method < Prefix` — a left `Path` beats a
/// right `Method`, so "not found" wins over "wrong method".
pub proof fn lemma_or_tie_break<T, L, R, U, E>(
    or: &Or<L, R>,
    req: T,
    e1: Error,
    e2: Error,
) where
    L: Route<T, Response = U, Err = E>,
    R: Route<T, Response = U, Err = E>,
    E: From<Error>,

    requires
        or.left.match_err(req) == Some(e1),
        or.right.match_err(req) == Some(e2),
    ensures
        or.match_err(req) == Some(e1.spec_min(e2)),
        e1.spec_min(e2).rank() <= e1.rank(),
        e1.spec_min(e2).rank() <= e2.rank(),
        e1.spec_min(e2) == e1 || e1.spec_min(e2) == e2,
{
}

} // verus!

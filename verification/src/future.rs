use vstd::prelude::*;

verus! {

/// A two-state outcome: either an inner computation that is still to be
/// driven, or a value that is already there — so a combinator that fails
/// before its handler runs can answer without wrapping the answer in a
/// computation.
#[derive(Clone, Copy, Debug)]
pub enum Maybe<F, O> {
    /// A computation still to be driven.
    Future(F),
    /// A finished outcome; taken once when it is consumed.
    Ready(Option<O>),
}

impl<F, O> Maybe<F, O> {
    /// An already-finished outcome.
    pub fn ready(value: O) -> (r: Maybe<F, O>)
        ensures
            r == Maybe::<F, O>::Ready(Some(value)),
    {
        Maybe::Ready(Some(value))
    }
}

/// One of two computations that produce the same outcome: which branch
/// of an alternation is driving the request.
#[derive(Clone, Copy, Debug)]
pub enum Either<L, R> {
    /// The left branch.
    Left(L),
    /// The right branch.
    Right(R),
}

} // verus!

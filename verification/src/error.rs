use vstd::prelude::*;

verus! {

/// Error returned when a route does not match.
///
/// The three kinds are totally ordered, `Path < Method < Prefix`; the
/// alternation combinator reports the minimum of two failures under this
/// order, so "not found" is preferred over "wrong method" over "bad mount
/// prefix".
#[derive(Clone, Copy, Debug, PartialEq, Eq, PartialOrd, Ord, Structural)]
pub enum Error {
    /// Route path does not match.
    Path,
    /// Route method does not match.
    Method,
    /// Route prefix does not match.
    Prefix,
}

impl Error {
    /// Position of this error in the order `Path < Method < Prefix`.
    pub open spec fn rank(self) -> int {
        match self {
            Error::Path => 0,
            Error::Method => 1,
            Error::Prefix => 2,
        }
    }

    /// The smaller of two errors under the order `Path < Method < Prefix`.
    pub open spec fn spec_min(self, other: Error) -> Error {
        if self.rank() <= other.rank() {
            self
        } else {
            other
        }
    }

    /// Pick the error that the alternation combinator reports when both of
    /// its branches fail.
    pub fn min(self, other: Error) -> (r: Error)
        ensures
            r == self.spec_min(other),
            r == self || r == other,
            r.rank() <= self.rank() && r.rank() <= other.rank(),
    {
        match (self, other) {
            (Error::Path, _) => Error::Path,
            (_, Error::Path) => Error::Path,
            (Error::Method, _) => Error::Method,
            (_, Error::Method) => Error::Method,
            _ => Error::Prefix,
        }
    }

    /// A human-readable description of the error.
    pub fn message(self) -> (r: String)
        ensures
            self == Error::Path ==> r@ == "route path does not match"@,
            self == Error::Method ==> r@ == "route method does not match"@,
            self == Error::Prefix ==> r@ == "route prefix does not match"@,
    {
        match self {
            Error::Path => String::from_str("route path does not match"),
            Error::Method => String::from_str("route method does not match"),
            Error::Prefix => String::from_str("route prefix does not match"),
        }
    }
}

} // verus!

use vstd::prelude::*;
use crate::strutil::str_eq;

verus! {

/// An HTTP method token.
///
/// The matching engine only ever compares methods for equality, so the
/// standard methods are carried as plain variants.
#[derive(Clone, Copy, Debug, PartialEq, Eq, Hash, Structural)]
pub enum Method {
    /// The GET method.
    Get,
    /// The POST method.
    Post,
    /// The PUT method.
    Put,
    /// The DELETE method.
    Delete,
    /// The HEAD method.
    Head,
    /// The OPTIONS method.
    Options,
    /// The PATCH method.
    Patch,
    /// The TRACE method.
    Trace,
    /// The CONNECT method.
    Connect,
}

/// The method whose upper-case name is `s`, if any.
pub open spec fn spec_method_of(s: Seq<char>) -> Option<Method> {
    if s == "GET"@ {
        Some(Method::Get)
    } else if s == "POST"@ {
        Some(Method::Post)
    } else if s == "PUT"@ {
        Some(Method::Put)
    } else if s == "DELETE"@ {
        Some(Method::Delete)
    } else if s == "HEAD"@ {
        Some(Method::Head)
    } else if s == "OPTIONS"@ {
        Some(Method::Options)
    } else if s == "PATCH"@ {
        Some(Method::Patch)
    } else if s == "TRACE"@ {
        Some(Method::Trace)
    } else if s == "CONNECT"@ {
        Some(Method::Connect)
    } else {
        None
    }
}

impl Method {
    /// Look a method up by its upper-case name, as it stands in a route
    /// specification.
    pub fn from_name(s: &str) -> (r: Option<Method>)
        ensures
            r == spec_method_of(s@),
    {
        if str_eq(s, "GET") {
            Some(Method::Get)
        } else if str_eq(s, "POST") {
            Some(Method::Post)
        } else if str_eq(s, "PUT") {
            Some(Method::Put)
        } else if str_eq(s, "DELETE") {
            Some(Method::Delete)
        } else if str_eq(s, "HEAD") {
            Some(Method::Head)
        } else if str_eq(s, "OPTIONS") {
            Some(Method::Options)
        } else if str_eq(s, "PATCH") {
            Some(Method::Patch)
        } else if str_eq(s, "TRACE") {
            Some(Method::Trace)
        } else if str_eq(s, "CONNECT") {
            Some(Method::Connect)
        } else {
            None
        }
    }
}

/// Whether `m` stands among `methods`.
pub fn method_in(methods: &Vec<Method>, m: Method) -> (r: bool)
    ensures
        r == methods@.contains(m),
{
    let n = methods.len();
    let mut i: usize = 0;
    while i < n
        invariant
            0 <= i <= n,
            n == methods@.len(),
            forall|j: int| 0 <= j < i ==> methods@[j] != m,
        decreases n - i,
    {
        if methods[i] == m {
            return true;
        }
        i += 1;
    }
    false
}

} // verus!

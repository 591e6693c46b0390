use vstd::prelude::*;
use vstd::string::*;
use crate::error::Error;
use crate::method::Method;
use crate::strutil::{contains_char, skip_chars, starts_with_str, str_eq};

verus! {

/// A request that has a path.
pub trait PathReq {
    /// The request's path.
    spec fn spec_path(&self) -> Seq<char>;

    /// Read the request's path.
    fn path(&self) -> (r: &str)
        ensures
            r@ == self.spec_path(),
    ;
}

/// A request that has a method.
pub trait MethodReq {
    /// The request's method.
    spec fn spec_method(&self) -> Method;

    /// Read the request's method.
    fn method(&self) -> (r: Method)
        ensures
            r == self.spec_method(),
    ;
}

/// Whether a request with path `path` can have `prefix` stripped: the
/// prefix holds no `?` and opens the path.
pub open spec fn prefix_removable(path: Seq<char>, prefix: Seq<char>) -> bool {
    !prefix.contains('?') && prefix.is_prefix_of(path)
}

/// A request that can strip a mount prefix off its own path.
pub trait RemovePrefix: Sized + PathReq {
    /// Whether `other` is `self` rewritten with `prefix` stripped: the
    /// path loses the prefix and everything else stays.
    spec fn spec_rewritten(self, prefix: Seq<char>, other: Self) -> bool;

    /// A rewritten request's path is the old path with the prefix
    /// stripped.
    proof fn lemma_rewritten_path(self, prefix: Seq<char>, other: Self)
        requires
            self.spec_rewritten(prefix, other),
        ensures
            other.spec_path() == self.spec_path().skip(prefix.len() as int),
    ;

    /// Strip `prefix`, or fail with [`Error::Prefix`] when the path does
    /// not start with it or the prefix itself is unusable.
    fn remove_prefix(self, prefix: &str) -> (r: Result<Self, Error>)
        ensures
            match r {
                Ok(r2) => prefix_removable(self.spec_path(), prefix@) && self.spec_rewritten(
                    prefix@,
                    r2,
                ),
                Err(e) => !prefix_removable(self.spec_path(), prefix@) && e == Error::Prefix,
            },
    ;
}

impl PathReq for String {
    open spec fn spec_path(&self) -> Seq<char> {
        self@
    }

    fn path(&self) -> (r: &str) {
        self.as_str()
    }
}

impl RemovePrefix for String {
    open spec fn spec_rewritten(self, prefix: Seq<char>, other: Self) -> bool {
        other@ == self@.skip(prefix.len() as int)
    }

    proof fn lemma_rewritten_path(self, prefix: Seq<char>, other: Self) {
    }

    fn remove_prefix(self, prefix: &str) -> (r: Result<Self, Error>) {
        if contains_char(prefix, '?') {
            return Err(Error::Prefix);
        }
        if !starts_with_str(self.as_str(), prefix) {
            return Err(Error::Prefix);
        }
        let np = prefix.unicode_len();
        let rest = skip_chars(self.as_str(), np);
        Ok(rest.to_owned())
    }
}

/// One request header: a name and a value.
#[derive(Clone, Debug)]
pub struct Header {
    /// The header's name.
    pub name: String,
    /// The header's value.
    pub value: String,
}

/// Mathematical form of a [`Header`].
pub struct HeaderModel {
    /// The header's name.
    pub name: Seq<char>,
    /// The header's value.
    pub value: Seq<char>,
}

impl Header {
    /// The mathematical header this holds.
    pub open spec fn model(self) -> HeaderModel {
        HeaderModel { name: self.name@, value: self.value@ }
    }
}

/// The models of a header list.
pub open spec fn headers_model(hs: Seq<Header>) -> Seq<HeaderModel> {
    hs.map_values(|h: Header| h.model())
}

/// The value of the first header named `name`, if any.
pub open spec fn spec_header_lookup(hs: Seq<HeaderModel>, name: Seq<char>) -> Option<Seq<char>>
    decreases hs.len(),
{
    if hs.len() == 0 {
        None
    } else if hs[0].name == name {
        Some(hs[0].value)
    } else {
        spec_header_lookup(hs.skip(1), name)
    }
}

/// A plain request: a method, a path and headers. The engine reads the
/// method and the path; middleware may read the headers.
#[derive(Clone, Debug)]
pub struct Request {
    /// The request's method.
    pub method: Method,
    /// The request's path.
    pub path: String,
    /// The request's headers, in order of arrival.
    pub headers: Vec<Header>,
}

impl Request {
    /// A request from a method and a path, with no headers.
    pub fn new(method: Method, path: &str) -> (r: Request)
        ensures
            r.method == method,
            r.path@ == path@,
            r.headers@.len() == 0,
    {
        Request { method, path: path.to_owned(), headers: Vec::new() }
    }

    /// This request with one header added after the existing ones.
    pub fn with_header(self, name: &str, value: &str) -> (r: Request)
        ensures
            r.method == self.method,
            r.path == self.path,
            headers_model(r.headers@) == headers_model(self.headers@).push(
                HeaderModel { name: name@, value: value@ },
            ),
    {
        let mut headers = self.headers;
        let ghost hs0 = headers@;
        let h = Header { name: name.to_owned(), value: value.to_owned() };
        let ghost hm = h.model();
        headers.push(h);
        proof {
            assert(headers_model(headers@) =~= headers_model(hs0).push(hm));
        }
        Request { method: self.method, path: self.path, headers }
    }

    /// The value of the first header named `name`, if any.
    pub fn header(&self, name: &str) -> (r: Option<&String>)
        ensures
            match r {
                Some(v) => spec_header_lookup(headers_model(self.headers@), name@) == Some(v@),
                None => spec_header_lookup(headers_model(self.headers@), name@) is None,
            },
    {
        let n = self.headers.len();
        let mut i: usize = 0;
        while i < n
            invariant
                0 <= i <= n,
                n == self.headers@.len(),
                forall|j: int| 0 <= j < i ==> headers_model(self.headers@)[j].name != name@,
            decreases n - i,
        {
            if str_eq(self.headers[i].name.as_str(), name) {
                proof {
                    lemma_header_lookup_at(headers_model(self.headers@), name@, i as int);
                }
                return Some(&self.headers[i].value);
            }
            i += 1;
        }
        proof {
            lemma_header_lookup_none(headers_model(self.headers@), name@);
        }
        None
    }
}

proof fn lemma_header_lookup_at(hs: Seq<HeaderModel>, name: Seq<char>, i: int)
    requires
        0 <= i < hs.len(),
        forall|j: int| 0 <= j < i ==> hs[j].name != name,
        hs[i].name == name,
    ensures
        spec_header_lookup(hs, name) == Some(hs[i].value),
    decreases hs.len(),
{
    if i > 0 {
        lemma_header_lookup_at(hs.skip(1), name, i - 1);
    }
}

proof fn lemma_header_lookup_none(hs: Seq<HeaderModel>, name: Seq<char>)
    requires
        forall|j: int| 0 <= j < hs.len() ==> hs[j].name != name,
    ensures
        spec_header_lookup(hs, name) is None,
    decreases hs.len(),
{
    if hs.len() > 0 {
        lemma_header_lookup_none(hs.skip(1), name);
    }
}

impl PathReq for Request {
    open spec fn spec_path(&self) -> Seq<char> {
        self.path@
    }

    fn path(&self) -> (r: &str) {
        self.path.as_str()
    }
}

impl MethodReq for Request {
    open spec fn spec_method(&self) -> Method {
        self.method
    }

    fn method(&self) -> (r: Method) {
        self.method
    }
}

impl RemovePrefix for Request {
    open spec fn spec_rewritten(self, prefix: Seq<char>, other: Self) -> bool {
        other.path@ == self.path@.skip(prefix.len() as int) && other.method == self.method
            && headers_model(other.headers@) == headers_model(self.headers@)
    }

    proof fn lemma_rewritten_path(self, prefix: Seq<char>, other: Self) {
    }

    fn remove_prefix(self, prefix: &str) -> (r: Result<Self, Error>) {
        if contains_char(prefix, '?') {
            return Err(Error::Prefix);
        }
        if !starts_with_str(self.path.as_str(), prefix) {
            return Err(Error::Prefix);
        }
        let np = prefix.unicode_len();
        let rest = skip_chars(self.path.as_str(), np);
        let path = rest.to_owned();
        Ok(Request { method: self.method, path, headers: self.headers })
    }
}

} // verus!

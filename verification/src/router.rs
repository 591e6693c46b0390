use vstd::prelude::*;
use vstd::string::*;
use crate::engine::{Extracted, Extractor};
use crate::error::Error;
use crate::func::Func;
use crate::mount::Mount;
use crate::or::Or;
use crate::request::{MethodReq, PathReq, RemovePrefix};
use crate::route::{Handle, Route};
use crate::strutil::{contains_char, lemma_trim_extra_slash, trim_end_slashes, trim_slashes};
use crate::void::Void;
use crate::with::With;

verus! {

/// The router: a builder that assembles leaves, alternation, prefix
/// delegation and middleware into one composition tree, and holds no
/// matching logic of its own. Routes added first are matched first.
#[derive(Clone)]
pub struct Router<R> {
    /// The composed tree.
    pub inner: R,
}

impl<T, R> Handle<T> for Router<R> where R: Handle<T> {
    type Response = R::Response;

    type Err = R::Err;

    open spec fn pre(&self, req: T) -> bool {
        self.inner.pre(req)
    }

    open spec fn post(&self, req: T, out: Result<R::Response, R::Err>) -> bool {
        self.inner.post(req, out)
    }

    fn call(&self, req: T) -> (out: Result<R::Response, R::Err>) {
        self.inner.call(req)
    }
}

impl<T, U> Router<Void<T, U>> {
    /// A router that matches no request at all: every request fails
    /// with [`Error::Path`].
    pub fn void() -> (r: Router<Void<T, U>>) {
        Router { inner: Void::new() }
    }
}

impl<F, U, E> Router<Func<F, U, E>> {
    /// A router holding one route.
    pub fn new<T>(route: Extractor, handler: F) -> (r: Router<Func<F, U, E>>) where
        T: PathReq + MethodReq,
        E: From<Error>,
        F: Fn(T, Extracted) -> Result<U, E>,

        ensures
            r.inner.route == route,
            r.inner.inner == handler,
    {
        Router { inner: Func::new(route, handler) }
    }
}

impl<R> Router<R> {
    /// Add a route. It is tried after every route already added: the
    /// first match in order of addition wins.
    pub fn route<T, U, E, F>(self, route: Extractor, handler: F) -> (r: Router<Or<R, Func<F, U, E>>>) where
        R: Route<T, Response = U, Err = E>,
        T: PathReq + MethodReq,
        E: From<Error>,
        F: Fn(T, Extracted) -> Result<U, E>,

        ensures
            r.inner.left == self.inner,
            r.inner.right.route == route,
            r.inner.right.inner == handler,
    {
        Router { inner: Or::new(self.inner, Func::new(route, handler)) }
    }

    /// Mount a node at a prefix: a request under the prefix is handed
    /// to `service` with the prefix stripped. The prefix is stored with
    /// its trailing `/` trimmed, so mounting at a prefix with a
    /// trailing `/` behaves as mounting without it. The prefix must
    /// satisfy [`spec_prefix_ok`]; [`check_prefix`] tests exactly that.
    pub fn mount<T, U, E, S>(self, prefix: &str, service: S) -> (r: Router<Or<R, Mount<S>>>) where
        R: Route<T, Response = U, Err = E>,
        S: Handle<T, Response = U, Err = E>,
        T: PathReq + RemovePrefix,
        E: From<Error>,

        requires
            spec_prefix_ok(prefix@),
        ensures
            r.inner.left == self.inner,
            r.inner.right.inner == service,
            r.inner.right.prefix@ == trim_slashes(prefix@),
    {
        let trimmed = trim_end_slashes(prefix);
        Router { inner: Or::new(self.inner, Mount::new(service, trimmed)) }
    }

    /// Wrap the whole tree built so far in middleware: `func` transforms
    /// each request before dispatch, and its failure short-circuits.
    pub fn with<T, E, F>(self, func: F) -> (r: Router<With<R, F>>) where
        R: Handle<T, Err = E>,
        F: Fn(T) -> Result<T, E>,

        ensures
            r.inner.inner == self.inner,
            r.inner.func == func,
    {
        Router { inner: With::new(self.inner, func) }
    }
}

/// Whether `p` is a usable mount prefix: once its trailing `/` are
/// trimmed it is non-empty, is not `/` itself, starts with `/` and holds
/// neither `?` nor `#`.
pub open spec fn spec_prefix_ok(p: Seq<char>) -> bool {
    let t = trim_slashes(p);
    &&& !t.contains('?')
    &&& !t.contains('#')
    &&& t.len() > 0
    &&& t[0] == '/'
}

/// Validate a mount prefix: the trimmed prefix exactly when
/// [`spec_prefix_ok`] holds of it, and [`Error::Prefix`] otherwise — so
/// construction fails deterministically for `""`, `"/"`, and any prefix
/// holding `?` or `#`.
pub fn check_prefix(prefix: &str) -> (r: Result<String, Error>)
    ensures
        match r {
            Ok(t) => spec_prefix_ok(prefix@) && t@ == trim_slashes(prefix@),
            Err(e) => !spec_prefix_ok(prefix@) && e == Error::Prefix,
        },
{
    let t = trim_end_slashes(prefix);
    if contains_char(t.as_str(), '?') {
        return Err(Error::Prefix);
    }
    if contains_char(t.as_str(), '#') {
        return Err(Error::Prefix);
    }
    if t.as_str().unicode_len() == 0 {
        return Err(Error::Prefix);
    }
    if t.as_str().get_char(0) != '/' {
        return Err(Error::Prefix);
    }
    Ok(t)
}

/// Mount trimming: a prefix with one more trailing `/` trims to the same
/// prefix and is valid exactly as often — so mounting at `"/api/"`
/// builds the same delegation as mounting at `"/api"`.
pub proof fn lemma_mount_trailing_slash(p: Seq<char>)
    ensures
        trim_slashes(p.push('/')) == trim_slashes(p),
        spec_prefix_ok(p.push('/')) == spec_prefix_ok(p),
{
    lemma_trim_extra_slash(p);
}

} // verus!

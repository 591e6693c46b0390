use vstd::prelude::*;
use crate::route::Handle;

verus! {

/// Middleware: transform the request before dispatching it to the inner
/// node. A transform failure short-circuits without touching the inner
/// node; transform and dispatch run strictly one after the other.
#[derive(Clone)]
pub struct With<S, F> {
    /// The node that handles the transformed request.
    pub inner: S,
    /// The transform, applied before dispatch.
    pub func: F,
}

impl<S, F> With<S, F> {
    /// Wrap `inner` behind the transform `func`.
    pub fn new<T, E>(inner: S, func: F) -> (r: With<S, F>) where
        S: Handle<T, Err = E>,
        F: Fn(T) -> Result<T, E>,

        ensures
            r.inner == inner,
            r.func == func,
    {
        With { inner, func }
    }
}

impl<T, S, F> Handle<T> for With<S, F> where
    S: Handle<T>,
    F: Fn(T) -> Result<T, S::Err>,
 {
    type Response = S::Response;

    type Err = S::Err;

    /// The transform must accept the request, and the inner node every
    /// request the transform can produce.
    open spec fn pre(&self, req: T) -> bool {
        &&& call_requires(self.func, (req,))
        &&& forall|r2: T| call_ensures(self.func, (req,), Ok::<T, S::Err>(r2)) ==> self.inner.pre(r2)
    }

    /// The outcome follows one possible run of the transform: its error
    /// unchanged when it fails, the inner node's outcome on the
    /// transformed request when it succeeds.
    open spec fn post(&self, req: T, out: Result<S::Response, S::Err>) -> bool {
        exists|tr: Result<T, S::Err>|
            #[trigger] call_ensures(self.func, (req,), tr) && (match tr {
                Err(e) => out == Err::<S::Response, S::Err>(e),
                Ok(r2) => self.inner.post(r2, out),
            })
    }

    fn call(&self, req: T) -> (out: Result<S::Response, S::Err>) {
        let ghost req0 = req;
        let tr = (self.func)(req);
        match tr {
            Err(e) => {
                let ghost w: Result<T, S::Err> = Err(e);
                let out: Result<S::Response, S::Err> = Err(e);
                proof {
                    assert(call_ensures(self.func, (req0,), w));
                }
                out
            },
            Ok(r2) => {
                let ghost w: Result<T, S::Err> = Ok(r2);
                proof {
                    assert(call_ensures(self.func, (req0,), w));
                }
                let out = self.inner.call(r2);
                out
            },
        }
    }
}

/// Open the middleware's precondition up for callers: it accepts a
/// request as soon as the transform accepts it and the inner node
/// accepts every request the transform can produce. (At a concrete
/// transform type the verifier does not unfold the trait contract by
/// itself; this lemma does it.)
pub proof fn lemma_with_pre<T, S, F>(w: &With<S, F>, req: T) where
    S: Handle<T>,
    F: Fn(T) -> Result<T, S::Err>,

    requires
        call_requires(w.func, (req,)),
        forall|r2: T| call_ensures(w.func, (req,), Ok::<T, S::Err>(r2)) ==> w.inner.pre(r2),
    ensures
        w.pre(req),
{
}

/// Open the middleware's postcondition up for callers: the outcome
/// follows one possible run of the transform.
pub proof fn lemma_with_post<T, S, F>(w: &With<S, F>, req: T, out: Result<S::Response, S::Err>) where
    S: Handle<T>,
    F: Fn(T) -> Result<T, S::Err>,

    requires
        w.post(req, out),
    ensures
        exists|tr: Result<T, S::Err>|
            #[trigger] call_ensures(w.func, (req,), tr) && (match tr {
                Err(e) => out == Err::<S::Response, S::Err>(e),
                Ok(r2) => w.inner.post(r2, out),
            }),
{
}

} // verus!

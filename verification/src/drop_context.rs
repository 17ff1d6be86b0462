//! A stage that discards the context stack from a contextual payload and
//! hands the bare raw request to a wrapped, context-unaware unit, so that
//! such units can be composed into a pipeline assembled under
//! [`AddContextMakeService`](crate::add_context::AddContextMakeService).

use crate::context::ContextualPayload;
use crate::service::{NoError, Service};
use core::marker::PhantomData;
use vstd::prelude::*;

verus! {

/// Factory for [`DropContextService`] units. Stateless: building a unit
/// only wraps the inner unit, so construction never fails.
#[derive(Debug)]
pub struct DropContextMakeService<C> {
    /// Type-only record of the context type this factory's units build.
    pub phantom: PhantomData<C>,
}

impl<C> DropContextMakeService<C> {
    /// Create a new factory.
    pub fn new() -> (r: Self) {
        DropContextMakeService { phantom: PhantomData }
    }
}

impl<T, C> Service<T> for DropContextMakeService<C> {
    type Response = DropContextService<T, C>;

    type Error = NoError;

    open spec fn ready_rel(self, r: Result<(), NoError>) -> bool {
        r is Ok
    }

    open spec fn call_rel(self, inner: T, r: Result<DropContextService<T, C>, NoError>) -> bool {
        r matches Ok(s) && s.inner == inner
    }

    open spec fn next_rel(self, next: Self) -> bool {
        next == self
    }

    fn poll_ready(&mut self) -> (r: Result<(), NoError>) {
        Ok(())
    }

    fn call(&mut self, inner: T) -> (r: Result<DropContextService<T, C>, NoError>) {
        Ok(DropContextService::new(inner))
    }
}

/// The context-dropping stage: recovers the raw request from a contextual
/// payload, dropping the whole context stack, and delegates to a unit that
/// knows nothing about contexts. A deliberate, irreversible narrowing: no
/// stage placed after this one can require context.
#[derive(Debug)]
pub struct DropContextService<T, C> {
    /// The wrapped, context-unaware unit.
    pub inner: T,
    /// Type-only record of the context type this stage builds.
    pub marker: PhantomData<C>,
}

impl<T, C> DropContextService<T, C> {
    /// Create a new stage wrapping `inner`.
    pub fn new(inner: T) -> (r: Self)
        ensures
            r.inner == inner,
    {
        DropContextService { inner, marker: PhantomData }
    }
}

impl<B, T, C> Service<ContextualPayload<B, C>> for DropContextService<T, C> where
    C: Send + Sync,
    T: Service<B>,
 {
    type Response = T::Response;

    type Error = T::Error;

    /// Readiness is delegated entirely to the wrapped unit: the stage
    /// itself never blocks acceptance of new work.
    open spec fn ready_rel(self, r: Result<(), T::Error>) -> bool {
        self.inner.ready_rel(r)
    }

    /// The response is exactly what the inner unit gives for the bare
    /// request: the context stack is dropped and nothing of it reaches the
    /// inner unit.
    open spec fn call_rel(
        self,
        req: ContextualPayload<B, C>,
        r: Result<T::Response, T::Error>,
    ) -> bool {
        self.inner.call_rel(req.inner, r)
    }

    /// The stage has no state of its own: only the wrapped unit moves, by
    /// its own relation.
    open spec fn next_rel(self, next: Self) -> bool {
        self.inner.next_rel(next.inner)
    }

    fn poll_ready(&mut self) -> (r: Result<(), T::Error>) {
        self.inner.poll_ready()
    }

    fn call(&mut self, req: ContextualPayload<B, C>) -> (r: Result<T::Response, T::Error>) {
        self.inner.call(req.inner)
    }
}

/// Whatever the context held, the context-dropping stage yields for
/// `{body, context}` exactly what its inner unit yields for `body` alone:
/// nothing of the context is reachable past this stage.
pub proof fn lemma_dropped_context_invisible<B, T, C>(
    stage: DropContextService<T, C>,
    payload: ContextualPayload<B, C>,
    r: Result<T::Response, T::Error>,
) where C: Send + Sync, T: Service<B>
    ensures
        stage.call_rel(payload, r) <==> stage.inner.call_rel(payload.inner, r),
{
}

} // verus!

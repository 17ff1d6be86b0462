//! The pipeline entry point: a stage that attaches the first context layer
//! — the trace identifier, reused from a well-formed `X-Span-ID` header or
//! freshly generated — to each inbound raw request, and passes the decorated
//! payload on to a wrapped unit.

use crate::context::{ContextualPayload, NewContext, Push};
use crate::header::{span_id_from, XSpanId};
use crate::request::{header_safe, Request};
use crate::service::{NoError, Service};
use core::marker::PhantomData;
use vstd::prelude::*;

verus! {

/// Factory for [`AddContextService`] units, to be used as the outermost
/// layer of a pipeline. Stateless: building a unit only wraps the inner
/// unit, so construction never fails.
#[derive(Debug)]
pub struct AddContextMakeService<C> {
    /// Type-only record of the context type this factory's units build.
    pub phantom: PhantomData<C>,
}

impl<C> AddContextMakeService<C> {
    /// Create a new factory.
    pub fn new() -> (r: Self) {
        AddContextMakeService { phantom: PhantomData }
    }
}

impl<T, C> Service<T> for AddContextMakeService<C> {
    type Response = AddContextService<T, C>;

    type Error = NoError;

    open spec fn ready_rel(self, r: Result<(), NoError>) -> bool {
        r is Ok
    }

    open spec fn call_rel(self, inner: T, r: Result<AddContextService<T, C>, NoError>) -> bool {
        r matches Ok(s) && s.inner == inner
    }

    open spec fn next_rel(self, next: Self) -> bool {
        next == self
    }

    fn poll_ready(&mut self) -> (r: Result<(), NoError>) {
        Ok(())
    }

    fn call(&mut self, inner: T) -> (r: Result<AddContextService<T, C>, NoError>) {
        Ok(AddContextService::new(inner))
    }
}

/// The context-attaching stage: wraps an inner unit and, on each inbound
/// raw request, pushes the request's trace identifier onto a freshly
/// initialized context before delegating. Usually built by
/// [`AddContextMakeService`] rather than used directly.
#[derive(Debug)]
pub struct AddContextService<T, C> {
    /// The wrapped unit, which receives the decorated payload.
    pub inner: T,
    /// Type-only record of the context type this stage builds.
    pub marker: PhantomData<C>,
}

impl<T, C> AddContextService<T, C> {
    /// Create a new stage wrapping `inner`.
    pub fn new(inner: T) -> (r: Self)
        ensures
            r.inner == inner,
    {
        AddContextService { inner, marker: PhantomData }
    }
}

impl<T, C> Service<Request> for AddContextService<T, C> where
    C: NewContext + Push<XSpanId> + Send + Sync,
    C::Pushed: Send + Sync,
    T: Service<ContextualPayload<Request, C::Pushed>>,
 {
    type Response = T::Response;

    type Error = T::Error;

    /// Readiness is delegated entirely to the wrapped unit: the stage
    /// itself never blocks acceptance of new work.
    open spec fn ready_rel(self, r: Result<(), T::Error>) -> bool {
        self.inner.ready_rel(r)
    }

    /// The response is whatever the inner unit gives for the decorated
    /// payload: the raw request unchanged, under a fresh context carrying an
    /// identifier that is the `X-Span-ID` header's value where that header
    /// is present and well-formed, and freshly generated otherwise.
    open spec fn call_rel(self, req: Request, r: Result<T::Response, T::Error>) -> bool {
        exists|id: XSpanId|
            #![auto]
            span_id_from(req, id) && header_safe(id.0@) && self.inner.call_rel(
                ContextualPayload { inner: req, context: C::fresh_spec().push_spec(id) },
                r,
            )
    }

    /// The stage has no state of its own: only the wrapped unit moves, by
    /// its own relation.
    open spec fn next_rel(self, next: Self) -> bool {
        self.inner.next_rel(next.inner)
    }

    fn poll_ready(&mut self) -> (r: Result<(), T::Error>) {
        self.inner.poll_ready()
    }

    fn call(&mut self, req: Request) -> (r: Result<T::Response, T::Error>) {
        let x_span_id: XSpanId = XSpanId::get_or_generate(&req);
        let ghost id = x_span_id;
        let context = C::fresh().push(x_span_id);
        let r = self.inner.call(ContextualPayload { inner: req, context });
        proof {
            assert(old(self).inner.call_rel(
                ContextualPayload { inner: req, context: C::fresh_spec().push_spec(id) },
                r,
            ));
        }
        r
    }
}

/// For a request lacking the trace-identifier header, every payload the
/// context-attaching stage can have handed on carries a freshly generated,
/// non-empty identifier.
pub proof fn lemma_absent_header_generates<T, C>(
    stage: AddContextService<T, C>,
    req: Request,
    r: Result<T::Response, T::Error>,
) where
    C: NewContext + Push<XSpanId> + Send + Sync,
    C::Pushed: Send + Sync,
    T: Service<ContextualPayload<Request, C::Pushed>>,

    requires
        stage.call_rel(req, r),
        crate::request::spec_find_header(req.headers@, crate::header::X_SPAN_ID@) is None,
    ensures
        exists|id: XSpanId|
            #![auto]
            crate::header::is_generated_id(id.0@) && id.0@.len() > 0 && stage.inner.call_rel(
                ContextualPayload { inner: req, context: C::fresh_spec().push_spec(id) },
                r,
            ),
{
    let id = choose|id: XSpanId|
        #![auto]
        span_id_from(req, id) && header_safe(id.0@) && stage.inner.call_rel(
            ContextualPayload { inner: req, context: C::fresh_spec().push_spec(id) },
            r,
        );
    crate::header::lemma_generated_id_well_formed(id.0@);
}

/// For a request carrying a well-formed trace-identifier header, the
/// payload the context-attaching stage hands on carries exactly the
/// header's value, unchanged.
pub proof fn lemma_present_header_reused<T, C>(
    stage: AddContextService<T, C>,
    req: Request,
    r: Result<T::Response, T::Error>,
    value: Seq<u8>,
) where
    C: NewContext + Push<XSpanId> + Send + Sync,
    C::Pushed: Send + Sync,
    T: Service<ContextualPayload<Request, C::Pushed>>,

    requires
        stage.call_rel(req, r),
        crate::request::spec_find_header(req.headers@, crate::header::X_SPAN_ID@) == Some(value),
        crate::request::bytes_are_text(value),
    ensures
        exists|id: XSpanId|
            #![auto]
            id.0@ == crate::request::decoded_chars(value) && stage.inner.call_rel(
                ContextualPayload { inner: req, context: C::fresh_spec().push_spec(id) },
                r,
            ),
{
}

} // verus!

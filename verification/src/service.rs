//! The pipeline-stage interface every component composes over: a unit with a
//! non-blocking readiness check and a processing operation, and factories
//! that build one unit per accepted connection.

use core::marker::PhantomData;
use vstd::prelude::*;

verus! {

/// A processing unit in a pipeline. `Req` is what the unit accepts; what it
/// may hand back is pinned by [`Service::call_rel`], a relation rather than
/// a function, so that units whose answer is not determined by the request
/// alone (a stage that generates a fresh identifier, a unit with outside
/// effects) can still state exactly what every outcome satisfies.
///
/// The same interface serves factories: a factory is a unit whose request is
/// the connection (or the inner unit to wrap) and whose response is the
/// per-connection processing unit.
///
/// A unit is driven sequentially: the readiness check and the processing
/// call of one unit are never run concurrently against each other.
pub trait Service<Req>: Sized {
    /// What a successful call hands back.
    type Response;

    /// How a failed call reports.
    type Error;

    /// Which outcomes the readiness check may report from this state.
    spec fn ready_rel(self, r: Result<(), Self::Error>) -> bool;

    /// Which responses this unit may give for `req` from this state.
    spec fn call_rel(self, req: Req, r: Result<Self::Response, Self::Error>) -> bool;

    /// Which states the unit may be in after one readiness check or one
    /// call. The stages of this crate keep their configuration — the
    /// relation pins every field but the wrapped unit, which moves by its
    /// own relation — so a pipeline stays identically configured across
    /// requests.
    spec fn next_rel(self, next: Self) -> bool;

    /// Report whether the unit is ready to accept work, without blocking.
    fn poll_ready(&mut self) -> (r: Result<(), Self::Error>)
        ensures
            old(self).ready_rel(r),
            old(self).next_rel(*final(self)),
    ;

    /// Process one request.
    fn call(&mut self, req: Req) -> (r: Result<Self::Response, Self::Error>)
        ensures
            old(self).call_rel(req, r),
            old(self).next_rel(*final(self)),
    ;
}

/// The error of an operation that has no failure path: no value of this
/// type is ever produced.
#[derive(Clone, Copy, Debug, PartialEq, Eq, Structural)]
pub struct NoError;

/// The echo unit: hands every request back unchanged, never fails, and is
/// always ready. It closes a pipeline whose observable behaviour should be
/// exactly what the stages in front of it did to the request.
#[derive(Debug)]
pub struct IdentityService<Req> {
    marker: PhantomData<Req>,
}

impl<Req> IdentityService<Req> {
    /// Create an echo unit.
    pub fn new() -> (r: Self) {
        IdentityService { marker: PhantomData }
    }
}

impl<Req> Service<Req> for IdentityService<Req> {
    type Response = Req;

    type Error = NoError;

    open spec fn ready_rel(self, r: Result<(), NoError>) -> bool {
        r is Ok
    }

    open spec fn call_rel(self, req: Req, r: Result<Req, NoError>) -> bool {
        r == Result::<Req, NoError>::Ok(req)
    }

    open spec fn next_rel(self, next: Self) -> bool {
        next == self
    }

    fn poll_ready(&mut self) -> (r: Result<(), NoError>) {
        Ok(())
    }

    fn call(&mut self, req: Req) -> (r: Result<Req, NoError>) {
        Ok(req)
    }
}

} // verus!

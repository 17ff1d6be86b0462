//! The typed context stack: how per-request metadata is attached to a
//! request, one statically distinguishable layer at a time.

use vstd::prelude::*;

verus! {

/// The value flowing through a pipeline: a raw request body paired with the
/// context stack attached so far. Ownership moves stage to stage; no stage
/// ever shares or aliases it.
pub struct ContextualPayload<B, C> {
    /// The raw request being processed.
    pub inner: B,
    /// The metadata stack attached to the request so far.
    pub context: C,
}

/// The context stack contract: attaching a typed value to a context yields a
/// new, statically distinguishable context type. Pushing never mutates or
/// destroys previously attached values; a stage that needs a value already
/// attached states that need as a bound on the context type it accepts, so a
/// mis-assembled pipeline fails to compile rather than fail at request time.
pub trait Push<T>: Sized {
    /// The context type produced by pushing a `T` onto `Self`.
    type Pushed;

    /// What [`Push::push`] returns, as a mathematical function.
    spec fn push_spec(self, item: T) -> Self::Pushed;

    /// Attach `item` as the newest layer of the stack.
    fn push(self, item: T) -> (r: Self::Pushed)
        ensures
            r == self.push_spec(item),
    ;
}

/// A context type with a canonical freshly initialized value, fit to carry
/// the first layer a pipeline attaches.
pub trait NewContext: Sized {
    /// The canonical starting value.
    spec fn fresh_spec() -> Self;

    /// Produce the canonical starting value.
    fn fresh() -> (r: Self)
        ensures
            r == Self::fresh_spec(),
    ;
}

/// The empty context stack: no metadata attached yet.
#[derive(Clone, Copy, Debug, PartialEq, Eq, Structural)]
pub struct EmptyContext;

/// One layer of a context stack: the newest attached value, over everything
/// attached before it.
#[derive(Clone, Debug, PartialEq)]
pub struct ContextLayer<T, C> {
    /// The newest attached value.
    pub head: T,
    /// The rest of the stack, exactly as it was before the push.
    pub tail: C,
}

impl NewContext for EmptyContext {
    open spec fn fresh_spec() -> Self {
        EmptyContext
    }

    fn fresh() -> (r: Self) {
        EmptyContext
    }
}

impl Default for EmptyContext {
    fn default() -> (r: Self)
        ensures
            r == EmptyContext,
    {
        EmptyContext
    }
}

impl<T> Push<T> for EmptyContext {
    type Pushed = ContextLayer<T, EmptyContext>;

    open spec fn push_spec(self, item: T) -> Self::Pushed {
        ContextLayer { head: item, tail: self }
    }

    fn push(self, item: T) -> (r: Self::Pushed) {
        ContextLayer { head: item, tail: self }
    }
}

impl<T, C, U> Push<U> for ContextLayer<T, C> {
    type Pushed = ContextLayer<U, ContextLayer<T, C>>;

    open spec fn push_spec(self, item: U) -> Self::Pushed {
        ContextLayer { head: item, tail: self }
    }

    fn push(self, item: U) -> (r: Self::Pushed) {
        ContextLayer { head: item, tail: self }
    }
}

/// Pushing onto the empty stack preserves it: the result carries the pushed
/// value as its only layer, over the empty stack itself.
pub proof fn lemma_push_preserves_empty<T>(item: T)
    ensures
        EmptyContext.push_spec(item) == (ContextLayer { head: item, tail: EmptyContext }),
{
}

/// Pushing onto a non-empty stack preserves it: the result carries the
/// pushed value as its newest layer and the whole original stack, unchanged,
/// beneath it.
pub proof fn lemma_push_preserves_layer<T, C, U>(ctx: ContextLayer<T, C>, item: U)
    ensures
        ctx.push_spec(item).head == item,
        ctx.push_spec(item).tail == ctx,
{
}

} // verus!

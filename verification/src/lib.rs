//! Request-processing pipeline toolkit for HTTP servers.
//!
//! A request flows through a chain of composable stages as a
//! [`ContextualPayload`]: the raw request paired with a statically typed
//! stack of attached metadata. Each stage pushes one layer (a trace
//! identifier, an authorization decision) onto the stack, or discards the
//! stack so that context-unaware units can close the pipeline.

use vstd::prelude::*;

pub mod add_context;
pub mod auth;
pub mod context;
pub mod drop_context;
pub mod header;
pub mod multipart;
pub mod request;
pub mod service;

pub use crate::add_context::AddContextMakeService;
pub use crate::add_context::AddContextService;
pub use crate::auth::api_key_from_header;
pub use crate::auth::AllowAllAuthenticator;
pub use crate::auth::AllowAllAuthenticatorMakeService;
pub use crate::auth::AuthData;
pub use crate::auth::Authorization;
pub use crate::auth::RcBound;
pub use crate::auth::Scopes;
pub use crate::context::ContextLayer;
pub use crate::context::ContextualPayload;
pub use crate::context::EmptyContext;
pub use crate::context::NewContext;
pub use crate::context::Push;
pub use crate::drop_context::DropContextMakeService;
pub use crate::drop_context::DropContextService;
pub use crate::header::IntoHeaderValue;
pub use crate::header::InvalidHeader;
pub use crate::header::XSpanId;
pub use crate::header::X_SPAN_ID;
pub use crate::multipart::boundary;
pub use crate::multipart::MediaTypeParts;
pub use crate::request::HeaderField;
pub use crate::request::Request;
pub use crate::service::IdentityService;
pub use crate::service::NoError;
pub use crate::service::Service;

verus! {

/// The context stack a pipeline has built once the context-attaching and
/// authorization-attaching stages have both run: the authorization decision
/// over the trace identifier over the empty stack.
pub type FullContext = ContextLayer<Option<Authorization>, ContextLayer<XSpanId, EmptyContext>>;

/// End to end: in the pipeline `context-attaching stage → authorization-
/// attaching stage → context-dropping stage → final unit`, the final unit
/// receives exactly the raw request — the context is invisible to it — so
/// the pipeline's response is one the final unit itself could have given
/// for the bare request. Meanwhile the payload the context-dropping stage
/// received carried, for a request without a trace-identifier header, a
/// freshly generated identifier and the all-access authorization for the
/// configured subject.
pub proof fn lemma_pipeline_end_to_end<T: Service<Request>>(
    pipeline: AddContextService<
        AllowAllAuthenticator<DropContextService<T, FullContext>, ContextLayer<XSpanId, EmptyContext>>,
        EmptyContext,
    >,
    req: Request,
    r: Result<T::Response, T::Error>,
)
    requires
        pipeline.call_rel(req, r),
        request::spec_find_header(req.headers@, X_SPAN_ID@) is None,
    ensures
        exists|id: XSpanId, auth: Authorization|
            #![auto]
            header::is_generated_id(id.0@) && id.0@.len() > 0 && auth::granted_authorization(
                auth,
                pipeline.inner.subject@,
            ) && pipeline.inner.inner.call_rel(
                ContextualPayload {
                    inner: req,
                    context: ContextLayer {
                        head: Some(auth),
                        tail: ContextLayer { head: id, tail: EmptyContext },
                    },
                },
                r,
            ),
        pipeline.inner.inner.inner.call_rel(req, r),
{
    let id = choose|id: XSpanId|
        #![auto]
        header::span_id_from(req, id) && request::header_safe(id.0@) && pipeline.inner.call_rel(
            ContextualPayload {
                inner: req,
                context: EmptyContext::fresh_spec().push_spec(id),
            },
            r,
        );
    assert(header::is_generated_id(id.0@));
    header::lemma_generated_id_well_formed(id.0@);
    let first = ContextLayer { head: id, tail: EmptyContext };
    assert(pipeline.inner.call_rel(ContextualPayload { inner: req, context: first }, r));
    let auth = choose|auth: Authorization|
        #![auto]
        auth::granted_authorization(auth, pipeline.inner.subject@)
            && pipeline.inner.inner.call_rel(
            ContextualPayload { inner: req, context: first.push_spec(Some(auth)) },
            r,
        );
    let full = ContextLayer { head: Some(auth), tail: first };
    assert(pipeline.inner.inner.call_rel(ContextualPayload { inner: req, context: full }, r));
    assert(pipeline.inner.inner.inner.call_rel(req, r));
}

} // verus!

//! Authentication and authorization data structures, and the
//! authorization-attaching stage: a pass-through policy that grants every
//! request all scopes for a fixed, configured subject.

use crate::context::{ContextualPayload, Push};
use crate::service::Service;
use crate::request::{bytes_are_text, decoded_chars, spec_find_header, HeaderField};
use core::marker::PhantomData;
use headers::authorization::Basic as HttpBasic;
use headers::authorization::Bearer as HttpBearer;
use headers::Authorization as HttpAuthorization;
use std::collections::BTreeSet;
use vstd::pervasive::unreached;
use vstd::prelude::*;

verus! {

broadcast use vstd::string::group_string_axioms;

/// Authorization scopes.
#[derive(Clone, Debug, PartialEq)]
pub enum Scopes {
    /// An explicit, finite set of granted scopes.
    Only(BTreeSet<String>),
    /// All possible scopes, authorization checking disabled.
    All,
}

/// Storage of authorization parameters for an incoming request, used for
/// REST API authorization: the granted-access decision, distinct from the
/// raw credentials the request carried.
#[derive(Clone, Debug, PartialEq)]
pub struct Authorization {
    /// Subject for which authorization is granted
    /// (i.e., what may be accessed).
    pub subject: String,
    /// Scopes for which authorization is granted
    /// (i.e., what types of access are permitted).
    pub scopes: Scopes,
    /// Identity of the party to whom authorization was granted, if
    /// available (i.e., who is responsible for the access). Where the
    /// original delegator hands authority on, this stays the original
    /// delegator and is never overwritten below that point.
    pub issuer: Option<String>,
}

/// Storage of raw authentication data, used both for storing incoming
/// request authentication, and for authenticating outgoing client requests.
/// It has no relationship to [`Authorization`]: one holds supplied
/// credentials, the other a granted decision.
#[derive(Clone, Debug, PartialEq)]
pub enum AuthData {
    /// HTTP Basic auth.
    Basic(HttpBasic),
    /// HTTP Bearer auth, used for OAuth2.
    Bearer(HttpBearer),
    /// Header-based or query parameter-based API key auth.
    ApiKey(String),
}

#[verifier::external_type_specification]
#[verifier::external_body]
pub struct ExBasic(HttpBasic);

#[verifier::external_type_specification]
#[verifier::external_body]
pub struct ExBearer(HttpBearer);

/// Relies on the derived `Clone` impl of the headers crate's Basic
/// credential. The clone is opaque here; nothing about it is assumed.
pub assume_specification[ <HttpBasic as std::clone::Clone>::clone ](v: &HttpBasic) -> HttpBasic;

/// Relies on the derived `Clone` impl of the headers crate's Bearer
/// credential. The clone is opaque here; nothing about it is assumed.
pub assume_specification[ <HttpBearer as std::clone::Clone>::clone ](
    v: &HttpBearer,
) -> HttpBearer;

/// Relies on `headers::Authorization::basic`, which builds the HTTP Basic
/// credential encoding this username and password pair. The credential is
/// opaque here; nothing about its contents is assumed.
#[verifier::external_body]
fn basic_credentials(username: &str, password: &str) -> (r: HttpBasic) {
    HttpAuthorization::basic(username, password).0
}

/// A character acceptable in a bearer token: anything that may stand in an
/// HTTP header value — not a control character other than horizontal tab,
/// and not delete.
pub open spec fn bearer_token_char(c: char) -> bool {
    (' ' <= c && c != '\u{7f}') || c == '\t'
}

/// Whether every character of a token is acceptable in a bearer credential.
pub open spec fn valid_bearer_token(s: Seq<char>) -> bool {
    forall|i: int| 0 <= i < s.len() ==> bearer_token_char(#[trigger] s[i])
}

/// Relies on `headers::Authorization::bearer`, which builds the credential
/// `Bearer <token>` as a header value and therefore succeeds exactly when
/// every byte of the token is legal in a header value: not a control byte
/// other than horizontal tab, and not delete. Bytes of characters beyond
/// ASCII are all legal there.
#[verifier::external_body]
fn bearer_credentials(token: &str) -> (r: Option<HttpBearer>)
    ensures
        r is Some <==> valid_bearer_token(token@),
{
    HttpAuthorization::bearer(token).ok().map(|a| a.0)
}

impl AuthData {
    /// Set Basic authentication.
    pub fn basic(username: &str, password: &str) -> (r: Self)
        ensures
            r is Basic,
    {
        AuthData::Basic(basic_credentials(username, password))
    }

    /// Set Bearer token authentication. The token must be made of
    /// characters legal in a header value.
    pub fn bearer(token: &str) -> (r: Self)
        requires
            valid_bearer_token(token@),
        ensures
            r is Bearer,
    {
        match bearer_credentials(token) {
            Some(credential) => AuthData::Bearer(credential),
            None => unreached(),
        }
    }

    /// Set ApiKey authentication.
    pub fn apikey(apikey: &str) -> (r: Self)
        ensures
            r matches AuthData::ApiKey(k) && k@ == apikey@,
    {
        AuthData::ApiKey(apikey.to_owned())
    }
}

/// Retrieve an API key from a header: the value of the first field named
/// `header`, read as text. Absent or non-text values give nothing.
pub fn api_key_from_header(headers: &Vec<HeaderField>, header: &str) -> (r: Option<String>)
    ensures
        match spec_find_header(headers@, header@) {
            Some(bytes) => if bytes_are_text(bytes) {
                r matches Some(k) && k@ == decoded_chars(bytes)
            } else {
                r is None
            },
            None => r is None,
        },
{
    match crate::request::find_header(headers, header) {
        Some(value) => crate::request::header_value_text(value),
        None => None,
    }
}

/// Bound for the request context of factory wrappers: a context ready to
/// take an authorization decision.
pub trait RcBound: Push<Option<Authorization>> + Send + Sync {

}

impl<T> RcBound for T where T: Push<Option<Authorization>> + Send + Sync {

}

/// What the authorization-attaching stage grants: all scopes, for the
/// configured subject, with no issuer — regardless of the request.
pub open spec fn granted_authorization(auth: Authorization, subject: Seq<char>) -> bool {
    auth.subject@ == subject && auth.scopes is All && auth.issuer is None
}

/// Factory for [`AllowAllAuthenticator`] units. Holds only the configured
/// subject, cloned into each unit it builds; construction never fails.
#[derive(Debug)]
pub struct AllowAllAuthenticatorMakeService<C> {
    /// The subject every built unit grants authorization for.
    pub subject: String,
    /// Type-only record of the context type the built units accept.
    pub phantom: PhantomData<C>,
}

impl<C> AllowAllAuthenticatorMakeService<C> {
    /// Create a new factory granting authorization for `subject`.
    pub fn new(subject: &str) -> (r: Self)
        ensures
            r.subject@ == subject@,
    {
        AllowAllAuthenticatorMakeService { subject: subject.to_owned(), phantom: PhantomData }
    }
}

impl<T, C> crate::service::Service<T> for AllowAllAuthenticatorMakeService<C> {
    type Response = AllowAllAuthenticator<T, C>;

    type Error = crate::service::NoError;

    open spec fn ready_rel(self, r: Result<(), crate::service::NoError>) -> bool {
        r is Ok
    }

    open spec fn call_rel(
        self,
        inner: T,
        r: Result<AllowAllAuthenticator<T, C>, crate::service::NoError>,
    ) -> bool {
        r matches Ok(s) && s.inner == inner && s.subject@ == self.subject@
    }

    /// The factory's configuration survives every build: repeated builds
    /// yield identically configured units.
    open spec fn next_rel(self, next: Self) -> bool {
        next == self
    }

    fn poll_ready(&mut self) -> (r: Result<(), crate::service::NoError>) {
        Ok(())
    }

    fn call(&mut self, inner: T) -> (r: Result<
        AllowAllAuthenticator<T, C>,
        crate::service::NoError,
    >) {
        Ok(AllowAllAuthenticator::new(inner, self.subject.as_str()))
    }
}

/// The authorization-attaching stage: a dummy authenticator that blindly
/// pushes an authorization decision granting all access for the configured
/// subject onto the context of every payload, then delegates to the wrapped
/// unit. Usually built by [`AllowAllAuthenticatorMakeService`].
#[derive(Debug)]
pub struct AllowAllAuthenticator<T, C> {
    /// The wrapped unit, which receives the payload with the decision
    /// attached.
    pub inner: T,
    /// The subject authorization is granted for.
    pub subject: String,
    /// Type-only record of the context type this stage accepts.
    pub marker: PhantomData<C>,
}

impl<T, C> AllowAllAuthenticator<T, C> {
    /// Create a new stage wrapping `inner`, granting for `subject`.
    pub fn new(inner: T, subject: &str) -> (r: Self)
        ensures
            r.inner == inner,
            r.subject@ == subject@,
    {
        AllowAllAuthenticator { inner, subject: subject.to_owned(), marker: PhantomData }
    }
}

impl<B, T, C> crate::service::Service<ContextualPayload<B, C>> for AllowAllAuthenticator<
    T,
    C,
> where C: RcBound, T: crate::service::Service<ContextualPayload<B, C::Pushed>> {
    type Response = T::Response;

    type Error = T::Error;

    /// Readiness is delegated entirely to the wrapped unit: the stage
    /// itself never blocks acceptance of new work.
    open spec fn ready_rel(self, r: Result<(), T::Error>) -> bool {
        self.inner.ready_rel(r)
    }

    /// The response is whatever the inner unit gives for the same payload
    /// with the all-access decision for the configured subject pushed onto
    /// its context — independent of the request's content.
    open spec fn call_rel(
        self,
        req: ContextualPayload<B, C>,
        r: Result<T::Response, T::Error>,
    ) -> bool {
        exists|auth: Authorization|
            #![auto]
            granted_authorization(auth, self.subject@) && self.inner.call_rel(
                ContextualPayload {
                    inner: req.inner,
                    context: req.context.push_spec(Some(auth)),
                },
                r,
            )
    }

    /// The configured subject, set at construction, is never mutated: only
    /// the wrapped unit moves, by its own relation.
    open spec fn next_rel(self, next: Self) -> bool {
        next.subject == self.subject && self.inner.next_rel(next.inner)
    }

    fn poll_ready(&mut self) -> (r: Result<(), T::Error>) {
        self.inner.poll_ready()
    }

    fn call(&mut self, req: ContextualPayload<B, C>) -> (r: Result<T::Response, T::Error>) {
        let auth = Authorization {
            subject: self.subject.clone(),
            scopes: Scopes::All,
            issuer: None,
        };
        let ghost granted = auth;
        let context = req.context.push(Some(auth));
        let r = self.inner.call(ContextualPayload { inner: req.inner, context });
        proof {
            assert(granted_authorization(granted, old(self).subject@));
            assert(old(self).inner.call_rel(
                ContextualPayload {
                    inner: req.inner,
                    context: req.context.push_spec(Some(granted)),
                },
                r,
            ));
        }
        r
    }
}

/// Whatever the payload already held, the authorization-attaching stage
/// hands its inner unit the same body under the same context with exactly
/// one layer added: the all-access authorization for the configured
/// subject, with no issuer.
pub proof fn lemma_authenticator_grants_configured_subject<B, T, C>(
    stage: AllowAllAuthenticator<T, C>,
    payload: ContextualPayload<B, C>,
    r: Result<T::Response, T::Error>,
) where C: RcBound, T: crate::service::Service<ContextualPayload<B, C::Pushed>>
    requires
        stage.call_rel(payload, r),
    ensures
        exists|auth: Authorization|
            #![auto]
            granted_authorization(auth, stage.subject@) && stage.inner.call_rel(
                ContextualPayload {
                    inner: payload.inner,
                    context: payload.context.push_spec(Some(auth)),
                },
                r,
            ),
{
}

} // verus!

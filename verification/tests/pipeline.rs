use swagger::AddContextMakeService;
use swagger::AddContextService;
use swagger::AllowAllAuthenticator;
use swagger::AllowAllAuthenticatorMakeService;
use swagger::Authorization;
use swagger::ContextLayer;
use swagger::ContextualPayload;
use swagger::DropContextMakeService;
use swagger::DropContextService;
use swagger::EmptyContext;
use swagger::FullContext;
use swagger::HeaderField;
use swagger::IdentityService;
use swagger::Push;
use swagger::Request;
use swagger::Scopes;
use swagger::Service;
use swagger::XSpanId;

type FirstContext = ContextLayer<XSpanId, EmptyContext>;

fn request_without_span(body: &[u8]) -> Request {
    Request {
        headers: vec![HeaderField {
            name: "Accept".to_string(),
            value: b"text/plain".to_vec(),
        }],
        body: body.to_vec(),
    }
}

fn request_with_span(name: &str, value: &[u8], body: &[u8]) -> Request {
    Request {
        headers: vec![HeaderField {
            name: name.to_string(),
            value: value.to_vec(),
        }],
        body: body.to_vec(),
    }
}

fn generated_shape(s: &str) -> bool {
    s.len() == 36
        && s.chars()
            .all(|c| c.is_ascii_hexdigit() && !c.is_ascii_uppercase() || c == '-')
}

#[test]
fn absent_header_generates_fresh_nonempty_identifier() {
    let mut stage: AddContextService<IdentityService<ContextualPayload<Request, FirstContext>>, EmptyContext> =
        AddContextService::new(IdentityService::new());
    let first = stage
        .call(request_without_span(b"one"))
        .expect("identity unit cannot fail");
    let second = stage
        .call(request_without_span(b"two"))
        .expect("identity unit cannot fail");
    assert!(!first.context.head.0.is_empty());
    assert!(generated_shape(&first.context.head.0));
    assert!(!second.context.head.0.is_empty());
    assert_ne!(first.context.head.0, second.context.head.0);
}

#[test]
fn present_header_is_reused_unchanged() {
    let mut stage: AddContextService<IdentityService<ContextualPayload<Request, FirstContext>>, EmptyContext> =
        AddContextService::new(IdentityService::new());
    let payload = stage
        .call(request_with_span("X-Span-ID", b"span-42", b"body"))
        .expect("identity unit cannot fail");
    assert_eq!(payload.context.head.0, "span-42");
    assert_eq!(payload.inner.body, b"body".to_vec());
}

#[test]
fn header_name_lookup_is_case_insensitive() {
    let mut stage: AddContextService<IdentityService<ContextualPayload<Request, FirstContext>>, EmptyContext> =
        AddContextService::new(IdentityService::new());
    let payload = stage
        .call(request_with_span("x-span-id", b"lower-name", b""))
        .expect("identity unit cannot fail");
    assert_eq!(payload.context.head.0, "lower-name");
}

#[test]
fn malformed_header_value_triggers_generation() {
    let mut stage: AddContextService<IdentityService<ContextualPayload<Request, FirstContext>>, EmptyContext> =
        AddContextService::new(IdentityService::new());
    let payload = stage
        .call(request_with_span("X-Span-ID", b"bad\x00bytes", b""))
        .expect("identity unit cannot fail");
    assert!(generated_shape(&payload.context.head.0));
}

#[test]
fn authenticator_attaches_allow_all_for_alice() {
    let mut stage: AllowAllAuthenticator<
        IdentityService<ContextualPayload<Request, FullContext>>,
        FirstContext,
    > = AllowAllAuthenticator::new(IdentityService::new(), "alice");
    let context = EmptyContext.push(XSpanId("abc".to_string()));
    let payload = stage
        .call(ContextualPayload {
            inner: request_without_span(b"anything"),
            context,
        })
        .expect("identity unit cannot fail");
    let auth = payload.context.head.clone().expect("authorization attached");
    assert_eq!(
        auth,
        Authorization {
            subject: "alice".to_string(),
            scopes: Scopes::All,
            issuer: None,
        }
    );
    assert_eq!(payload.context.tail.head.0, "abc");
}

#[test]
fn drop_context_yields_exactly_the_body() {
    let mut stage: DropContextService<IdentityService<Request>, FirstContext> =
        DropContextService::new(IdentityService::new());
    let request = request_with_span("X-Span-ID", b"kept", b"payload-body");
    let expected = request.clone();
    let context = EmptyContext.push(XSpanId("kept".to_string()));
    let out = stage
        .call(ContextualPayload {
            inner: request,
            context,
        })
        .expect("identity unit cannot fail");
    assert_eq!(out, expected);
}

#[test]
fn pipeline_end_to_end_context_is_invisible() {
    let drop_stage: DropContextService<IdentityService<Request>, FullContext> =
        DropContextService::new(IdentityService::new());
    let auth_stage: AllowAllAuthenticator<_, FirstContext> =
        AllowAllAuthenticator::new(drop_stage, "svc");
    let mut pipeline: AddContextService<_, EmptyContext> = AddContextService::new(auth_stage);
    let request = request_without_span(b"ping");
    let expected = request.clone();
    let out = pipeline.call(request).expect("pipeline cannot fail");
    let mut echo: IdentityService<Request> = IdentityService::new();
    let direct = echo.call(expected).expect("identity unit cannot fail");
    assert_eq!(out, direct);
    assert_eq!(out.body, b"ping".to_vec());
}

#[test]
fn pipeline_intermediate_payload_carries_id_and_authorization() {
    let observer: IdentityService<ContextualPayload<Request, FullContext>> = IdentityService::new();
    let auth_stage: AllowAllAuthenticator<_, FirstContext> =
        AllowAllAuthenticator::new(observer, "svc");
    let mut front: AddContextService<_, EmptyContext> = AddContextService::new(auth_stage);
    let observed = front
        .call(request_without_span(b"ping"))
        .expect("identity unit cannot fail");
    let auth = observed.context.head.clone().expect("authorization attached");
    assert_eq!(auth.subject, "svc");
    assert_eq!(auth.scopes, Scopes::All);
    assert!(!observed.context.tail.head.0.is_empty());
    assert_eq!(observed.inner.body, b"ping".to_vec());
}

type InnerUnit = IdentityService<ContextualPayload<Request, FirstContext>>;
type AuthInnerUnit = IdentityService<ContextualPayload<Request, FullContext>>;

#[test]
fn factories_build_ready_units() {
    let mut make: AddContextMakeService<EmptyContext> = AddContextMakeService::new();
    assert!(
        <AddContextMakeService<EmptyContext> as Service<InnerUnit>>::poll_ready(&mut make).is_ok()
    );
    let mut built: AddContextService<InnerUnit, EmptyContext> =
        make.call(IdentityService::new()).expect("factories cannot fail");
    assert!(built.poll_ready().is_ok());

    let mut auth_make: AllowAllAuthenticatorMakeService<FirstContext> =
        AllowAllAuthenticatorMakeService::new("svc");
    assert!(
        <AllowAllAuthenticatorMakeService<FirstContext> as Service<AuthInnerUnit>>::poll_ready(
            &mut auth_make
        )
        .is_ok()
    );
    let mut auth_built: AllowAllAuthenticator<AuthInnerUnit, FirstContext> =
        auth_make.call(IdentityService::new()).expect("factories cannot fail");
    assert_eq!(auth_built.subject, "svc");
    assert!(auth_built.poll_ready().is_ok());

    let mut drop_make: DropContextMakeService<FirstContext> = DropContextMakeService::new();
    assert!(
        <DropContextMakeService<FirstContext> as Service<IdentityService<Request>>>::poll_ready(
            &mut drop_make
        )
        .is_ok()
    );
    let mut drop_built: DropContextService<IdentityService<Request>, FirstContext> =
        drop_make.call(IdentityService::new()).expect("factories cannot fail");
    assert!(drop_built.poll_ready().is_ok());
}

#[test]
fn configuration_survives_calls_and_rebuilds() {
    let mut stage: AllowAllAuthenticator<AuthInnerUnit, FirstContext> =
        AllowAllAuthenticator::new(IdentityService::new(), "svc");
    let context = EmptyContext.push(XSpanId("id-1".to_string()));
    let _ = stage
        .call(ContextualPayload {
            inner: request_without_span(b"x"),
            context,
        })
        .expect("identity unit cannot fail");
    assert_eq!(stage.subject, "svc");

    let mut make: AllowAllAuthenticatorMakeService<FirstContext> =
        AllowAllAuthenticatorMakeService::new("svc");
    let first_unit: AllowAllAuthenticator<AuthInnerUnit, FirstContext> =
        make.call(IdentityService::new()).expect("factories cannot fail");
    let second_unit: AllowAllAuthenticator<AuthInnerUnit, FirstContext> =
        make.call(IdentityService::new()).expect("factories cannot fail");
    assert_eq!(first_unit.subject, "svc");
    assert_eq!(second_unit.subject, "svc");
    assert_eq!(make.subject, "svc");
}

#[test]
fn push_layers_stack_newest_first() {
    let context = EmptyContext
        .push(XSpanId("first".to_string()))
        .push(Some(Authorization {
            subject: "svc".to_string(),
            scopes: Scopes::All,
            issuer: None,
        }));
    assert_eq!(context.tail.head.0, "first");
    assert_eq!(context.tail.tail, EmptyContext);
    let auth = context.head.expect("pushed value present");
    assert_eq!(auth.subject, "svc");
}

use poem_marshal::handler::{IntoResponse, Response};
use poem_marshal::{
    build_handler, AddData, DynValue, Endpoint, ErrorResponse, HandlerError, JsonValue,
    Middleware, ParamSpec, ParsePayload, Payload, Pipeline, PipelineAction, PlainText, Registry,
    Request, SchemaRef,
};

fn param(ident: &str, consumes_body: bool) -> ParamSpec {
    ParamSpec { ident: ident.to_string(), consumes_body }
}

#[test]
fn build_handler_accepts_single_body_consumer() {
    let unit = build_handler(
        "create_user".to_string(),
        false,
        vec![param("req", false), param("body", true)],
    )
    .unwrap();
    assert_eq!(unit.ident, "create_user");
    assert_eq!(unit.params.len(), 2);
}

#[test]
fn build_handler_rejects_two_body_consumers() {
    let err = build_handler(
        "bad".to_string(),
        false,
        vec![param("a", true), param("b", true)],
    )
    .unwrap_err();
    assert_eq!(err, HandlerError::MultipleBodyConsumers);
}

#[test]
fn pipeline_extracts_in_order_then_invokes() {
    let mut p = Pipeline::new(2);
    assert_eq!(p.action(), PipelineAction::Extract(0));
    p.supply(Ok(DynValue::Int(1)));
    assert_eq!(p.action(), PipelineAction::Extract(1));
    p.supply(Ok(DynValue::Str("x".to_string())));
    assert_eq!(p.action(), PipelineAction::Invoke);
    let vals = p.into_values();
    assert_eq!(vals, vec![DynValue::Int(1), DynValue::Str("x".to_string())]);
}

#[test]
fn pipeline_short_circuits_on_first_failure() {
    let mut p = Pipeline::new(2);
    let mut calls = [0usize, 0usize];
    let failure = ErrorResponse { status: 400, message: "bad header".to_string() };
    let produced: ErrorResponse;
    loop {
        match p.action() {
            PipelineAction::Extract(i) => {
                calls[i] += 1;
                let outcome: Result<DynValue, ErrorResponse> = if i == 0 {
                    Err(ErrorResponse { status: 400, message: "bad header".to_string() })
                } else {
                    Ok(DynValue::Int(0))
                };
                p.supply(outcome);
            },
            PipelineAction::Respond(e) => {
                produced = e;
                break;
            },
            PipelineAction::Invoke => panic!("the function body must not run"),
        }
    }
    assert_eq!(calls, [1, 0]);
    assert_eq!(produced, failure);
}

#[test]
fn extensions_last_insert_wins() {
    let mut req = Request::default();
    req.extensions.insert(1, DynValue::Int(1));
    req.extensions.insert(1, DynValue::Int(2));
    assert_eq!(req.extensions.get(1), Some(&DynValue::Int(2)));
    assert_eq!(req.extensions.get(9), None);
}

#[test]
fn split_hands_the_body_out_once() {
    let mut req = Request::default();
    req.body = Some(JsonValue::Str("payload".to_string()));
    let (meta, body) = req.split();
    assert!(meta.body.is_none());
    assert_eq!(body, Some(JsonValue::Str("payload".to_string())));
}

struct Probe;

impl Endpoint for Probe {
    type Output = Option<DynValue>;

    fn call(&self, req: Request) -> Option<DynValue> {
        req.extensions.get(<i64 as poem_marshal::DataValue>::type_key()).cloned()
    }
}

#[test]
fn test_add_data() {
    let app = AddData::new(100i64).transform(Probe);
    assert_eq!(app.call(Request::default()), Some(DynValue::Int(100)));
}

#[test]
fn handler_unit_drives_a_fresh_pipeline() {
    let unit = build_handler("echo".to_string(), true, vec![param("body", true)]).unwrap();
    let mut p = unit.pipeline();
    assert_eq!(p.action(), PipelineAction::Extract(0));
    p.supply(Ok(DynValue::Int(7)));
    assert_eq!(p.action(), PipelineAction::Invoke);
    let out = JsonValue::Int(7).into_response();
    assert_eq!(out, Response::Value(JsonValue::Int(7)));
    let err = ErrorResponse { status: 500, message: "boom".to_string() }.into_response();
    match err {
        Response::Error(e) => assert_eq!(e.status, 500),
        other => panic!("expected an error response, got {:?}", other),
    }
}

#[test]
fn plain_text_payload_contract() {
    assert_eq!(PlainText::content_type(), "text/plain");
    assert!(PlainText::check_content_type("text/plain"));
    assert!(!PlainText::check_content_type("text/html"));
    assert_eq!(PlainText::schema_ref(), SchemaRef::Reference("string".to_string()));
    assert!(PlainText::is_required());
    let mut registry = Registry::new();
    PlainText::register(&mut registry);
    assert!(registry.schemas.is_empty());
}

#[test]
fn plain_text_consumes_the_body() {
    let req = Request::default();
    let mut body = Some(JsonValue::Str("hello".to_string()));
    let parsed = PlainText::from_request(&req, &mut body).unwrap();
    assert_eq!(parsed, PlainText("hello".to_string()));
    assert!(body.is_none());
    let err = PlainText::from_request(&req, &mut None).unwrap_err();
    assert_eq!(err.status, 400);
}

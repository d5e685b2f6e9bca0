use daedalus::disparity::{DisparityKind, JsonKind, KnownFormat, Location, SchemaKind};
use daedalus::operation::ResponseSpec;
use daedalus::scenario::ScenarioExpectation;
use daedalus::schema::{Json, Schema};
use daedalus::validator::{is_application_defined_code, validate, ServiceResponse};

fn user_schema() -> Schema {
    Schema::Object(vec![
        ("id".to_string(), Schema::Str(Some("uuid".to_string()))),
        ("age".to_string(), Schema::Integer),
        ("tags".to_string(), Schema::Array(Some(Box::new(Schema::Str(None))))),
    ])
}

fn user(age: Json) -> Json {
    Json::Object(vec![
        ("id".to_string(), Json::Str("03b97130-1be2-42f9-bdaf-e1f6a2b9e269".to_string())),
        ("age".to_string(), age),
        ("tags".to_string(), Json::Array(vec![Json::Str("x".to_string())])),
    ])
}

fn response(status: u16, body: Option<Json>) -> ServiceResponse {
    ServiceResponse { status, content_type: Some("application/json; charset=utf-8".to_string()), body }
}

fn expect<'a>(status: u16, body: Option<&'a ResponseSpec>) -> ScenarioExpectation<'a> {
    ScenarioExpectation { status_code: status, body, content_type: "application/json".to_string() }
}

#[test]
fn conforming_response_passes() {
    let spec = ResponseSpec { status: 200, schema: Some(user_schema()) };
    let r = validate(&response(200, Some(user(Json::Number))), &expect(200, Some(&spec)));
    assert!(r.is_empty());
}

#[test]
fn one_changed_property_gives_one_located_disparity() {
    let spec = ResponseSpec { status: 200, schema: Some(user_schema()) };
    let r = validate(&response(200, Some(user(Json::Str("old".to_string())))), &expect(200, Some(&spec)));
    assert_eq!(r.inner.len(), 1);
    assert_eq!(r.inner[0].location.render(), "age");
    match &r.inner[0].kind {
        DisparityKind::TypeMismatch { value, declared } => {
            assert_eq!(*value, JsonKind::Str);
            assert_eq!(*declared, SchemaKind::Integer);
        }
        other => panic!("unexpected {:?}", other),
    }
}

#[test]
fn status_and_content_type_disparities() {
    let spec = ResponseSpec { status: 200, schema: Some(user_schema()) };
    let mut resp = response(500, Some(user(Json::Number)));
    resp.content_type = None;
    let r = validate(&resp, &expect(200, Some(&spec)));
    assert_eq!(r.inner.len(), 2);
    assert!(matches!(r.inner[0].kind, DisparityKind::StatusDisparity { expected: 200, found: 500 }));
    assert!(matches!(r.inner[1].kind, DisparityKind::IncorrectContentType(None)));
    resp.status = 200;
    resp.content_type = Some("text/html".to_string());
    let r = validate(&resp, &expect(200, Some(&spec)));
    assert!(matches!(&r.inner[0].kind, DisparityKind::IncorrectContentType(Some(c)) if c == "text/html"));
}

#[test]
fn body_that_is_no_json() {
    let spec = ResponseSpec { status: 200, schema: Some(user_schema()) };
    let r = validate(&response(200, None), &expect(200, Some(&spec)));
    assert_eq!(r.inner.len(), 1);
    assert!(matches!(r.inner[0].kind, DisparityKind::JsonError));
}

#[test]
fn undocumented_codes() {
    assert!(is_application_defined_code(404));
    assert!(!is_application_defined_code(406));
    let r = validate(&response(404, Some(Json::Null)), &expect(404, None));
    assert!(matches!(r.inner[0].kind, DisparityKind::UndocumentedCode(404)));
    let r = validate(&response(406, Some(Json::Null)), &expect(406, None));
    assert!(r.is_empty());
    let bare = ResponseSpec { status: 422, schema: None };
    let r = validate(&response(422, Some(Json::Null)), &expect(422, Some(&bare)));
    assert!(matches!(r.inner[0].kind, DisparityKind::SchemaNotFound(422)));
    let r = validate(&response(406, Some(Json::Bool(true))), &expect(406, None));
    assert!(r.is_empty());
}

#[test]
fn undocumented_properties_and_formats() {
    let spec = ResponseSpec { status: 200, schema: Some(Schema::Object(vec![
        ("id".to_string(), Schema::Str(Some("uuid".to_string()))),
        ("when".to_string(), Schema::Str(None)),
        ("custom".to_string(), Schema::Str(Some("mdsol_uri".to_string()))),
    ])) };
    let body = Json::Object(vec![
        ("id".to_string(), Json::Str("not-a-uuid".to_string())),
        ("when".to_string(), Json::Str("2019-11-28".to_string())),
        ("custom".to_string(), Json::Str("anything".to_string())),
        ("extra".to_string(), Json::Null),
    ]);
    let r = validate(&response(200, Some(body)), &expect(200, Some(&spec)));
    assert_eq!(r.inner.len(), 3);
    assert!(matches!(r.inner[0].kind, DisparityKind::FormatMismatch(KnownFormat::Uuid)));
    assert_eq!(r.inner[0].location.render(), "id");
    assert!(matches!(r.inner[1].kind, DisparityKind::UndeclaredFormat(KnownFormat::Date)));
    assert!(matches!(&r.inner[2].kind, DisparityKind::UndocumentedProperty(p) if p == "extra"));
    assert!(r.inner[2].location.is_empty());
}

#[test]
fn arrays_are_checked_through_their_first_item() {
    let schema = Schema::Array(Some(Box::new(Schema::Object(vec![("n".to_string(), Schema::Number)]))));
    let spec = ResponseSpec { status: 200, schema: Some(schema) };
    let body = Json::Array(vec![
        Json::Object(vec![("n".to_string(), Json::Bool(false))]),
        Json::Object(vec![("n".to_string(), Json::Str("s".to_string()))]),
    ]);
    let r = validate(&response(200, Some(body)), &expect(200, Some(&spec)));
    assert_eq!(r.inner.len(), 1);
    assert_eq!(r.inner[0].location.render(), "items::n");
    let r = validate(&response(200, Some(Json::Array(vec![]))), &expect(200, Some(&spec)));
    assert!(r.is_empty());
}

#[test]
fn disparities_are_truncated() {
    let spec = ResponseSpec { status: 200, schema: Some(Schema::Object(vec![])) };
    let props: Vec<(String, Json)> = (0..20).map(|i| (format!("p{}", i), Json::Number)).collect();
    let r = validate(&response(200, Some(Json::Object(props))), &expect(200, Some(&spec)));
    assert_eq!(r.inner.len(), 8);
}

#[test]
fn locations_render_with_separators() {
    assert_eq!(Location::new(vec!["a", "b"]).add("c").render(), "a::b::c");
    assert_eq!(Location::empty().render(), "");
    assert!(Location::empty().is_empty());
}

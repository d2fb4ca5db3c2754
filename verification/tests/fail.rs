use http::StatusCode;
use jsender::fail::Fail;
use jsender::json::JsonValue;
use jsender::response::{IntoResponse, Status};
use serde_json::Value;

fn text(s: &str) -> JsonValue {
    JsonValue::Str(s.to_string())
}

fn pairs(items: Vec<(&str, JsonValue)>) -> Vec<(String, JsonValue)> {
    items.into_iter().map(|(k, v)| (k.to_string(), v)).collect()
}

fn to_json(response: Fail) -> Value {
    let http_response = response
        .into_response()
        .expect("serialisation should succeed");
    serde_json::from_slice(http_response.body()).expect("body should be valid JSON")
}

fn title_and_duration() -> Vec<(String, JsonValue)> {
    pairs(vec![
        ("title", text("is required")),
        ("duration", text("must be positive")),
    ])
}

#[test]
fn builds_data_object_from_pairs() {
    let response = Fail::new(title_and_duration(), StatusCode::UNPROCESSABLE_ENTITY);
    let body = to_json(response);

    // Fail response must report a "fail" status
    assert_eq!(body["status"], "fail");

    // Fail response must expose each provided pair under data
    assert_eq!(body["data"]["title"], "is required");
}

#[test]
fn accepts_non_string_values() {
    let response = Fail::new(
        pairs(vec![("duration", JsonValue::I64(-5))]),
        StatusCode::UNPROCESSABLE_ENTITY,
    );
    let body = to_json(response);

    // Non-string values must be preserved as their original JSON type
    assert_eq!(body["data"]["duration"], -5);
}

#[test]
fn no_entries_serialises_empty_object() {
    let response = Fail::new(Vec::new(), StatusCode::BAD_REQUEST);

    // An empty pair list must still produce a data object
    assert_eq!(
        to_json(response)["data"],
        Value::Object(serde_json::Map::new())
    );
}

#[test]
fn status_is_fail() {
    let response = Fail::new(title_and_duration(), StatusCode::UNPROCESSABLE_ENTITY);

    // Getter must return Fail
    assert_eq!(response.status(), &Status::Fail);
}

#[test]
fn data_returns_constructed_object() {
    let response = Fail::new(title_and_duration(), StatusCode::UNPROCESSABLE_ENTITY);

    // Getter must return the object built from the pairs
    assert_eq!(
        response.data(),
        &JsonValue::object(pairs(vec![
            ("title", text("is required")),
            ("duration", text("must be positive")),
        ]))
    );
}

#[test]
fn data_members_are_in_key_order() {
    let response = Fail::new(title_and_duration(), StatusCode::UNPROCESSABLE_ENTITY);
    assert_eq!(
        response.data(),
        &JsonValue::Object(pairs(vec![
            ("duration", text("must be positive")),
            ("title", text("is required")),
        ]))
    );
}

#[test]
fn pair_order_does_not_change_data() {
    let a = Fail::new(title_and_duration(), StatusCode::UNPROCESSABLE_ENTITY);
    let b = Fail::new(
        pairs(vec![
            ("duration", text("must be positive")),
            ("title", text("is required")),
        ]),
        StatusCode::BAD_REQUEST,
    );
    assert_eq!(a.data(), b.data());
    assert_eq!(a.into_response().unwrap().body(), b.into_response().unwrap().body());
}

#[test]
fn later_pair_replaces_earlier_value() {
    let response = Fail::new(
        pairs(vec![
            ("title", text("is required")),
            ("duration", text("must be positive")),
            ("title", text("is too long")),
        ]),
        StatusCode::UNPROCESSABLE_ENTITY,
    );
    assert_eq!(
        response.data(),
        &JsonValue::Object(pairs(vec![
            ("duration", text("must be positive")),
            ("title", text("is too long")),
        ]))
    );
}

#[test]
fn fail_body_is_exact_bytes_with_sorted_keys() {
    let response = Fail::new(title_and_duration(), StatusCode::UNPROCESSABLE_ENTITY);
    let http_response = response.into_response().unwrap();
    assert_eq!(
        http_response.body(),
        b"{\"status\":\"fail\",\"data\":{\"duration\":\"must be positive\",\"title\":\"is required\"}}"
            .as_slice()
    );
}

#[test]
fn fail_empty_body_is_exact_bytes() {
    let http_response = Fail::new(Vec::new(), StatusCode::BAD_REQUEST)
        .into_response()
        .unwrap();
    assert_eq!(
        http_response.body(),
        b"{\"status\":\"fail\",\"data\":{}}".as_slice()
    );
    assert_eq!(http_response.status(), StatusCode::BAD_REQUEST);
}

#[test]
fn fail_http_status_getter_returns_constructed_value() {
    let response = Fail::new(Vec::new(), StatusCode::CONFLICT);
    assert_eq!(response.http_status(), StatusCode::CONFLICT);
}

use http::StatusCode;
use jsender::error::Error;
use jsender::json::JsonValue;
use jsender::response::{IntoResponse, Status};
use serde_json::Value;

fn text(s: &str) -> JsonValue {
    JsonValue::Str(s.to_string())
}

fn trace() -> JsonValue {
    JsonValue::object(vec![
        ("service".to_string(), text("playback_api")),
        ("trace_id".to_string(), text("42736")),
    ])
}

fn to_json(response: Error) -> Value {
    let http_response = response
        .into_response()
        .expect("serialisation should succeed");
    serde_json::from_slice(http_response.body()).expect("body should be valid JSON")
}

#[test]
fn requires_only_message() {
    let response = Error::new(
        "playback service unreachable",
        None,
        None,
        StatusCode::INTERNAL_SERVER_ERROR,
    );
    let body = to_json(response);

    // Error response must report an "error" status
    assert_eq!(body["status"], "error");

    // Error response must carry the provided message verbatim
    assert_eq!(body["message"], "playback service unreachable");

    // Error response must omit optional keys that were not provided
    assert!(body.get("code").is_none());
    assert!(body.get("data").is_none());
}

#[test]
fn includes_code_when_present() {
    let response = Error::new("rate limited", Some(67), None, StatusCode::TOO_MANY_REQUESTS);

    // Code must be included in the error response when provided
    assert_eq!(to_json(response)["code"], 67);
}

#[test]
fn includes_data_when_present() {
    let response = Error::new("upstream failure", None, Some(trace()), StatusCode::BAD_GATEWAY);

    // Data must be included in the error response when provided
    assert_eq!(to_json(response)["data"]["trace_id"], "42736");
}

#[test]
fn status_is_error() {
    let response = Error::new(
        "playback service unreachable",
        None,
        None,
        StatusCode::INTERNAL_SERVER_ERROR,
    );

    // Getter must return Error
    assert_eq!(response.status(), &Status::Error);
}

#[test]
fn message_returns_constructed_value() {
    let response = Error::new(
        "playback service unreachable",
        None,
        None,
        StatusCode::INTERNAL_SERVER_ERROR,
    );

    // Getter must return the constructed error message
    assert_eq!(response.message(), "playback service unreachable");
}

#[test]
fn code_returns_constructed_value() {
    let response = Error::new("rate limited", Some(67), None, StatusCode::TOO_MANY_REQUESTS);

    // Getter must return the constructed error code
    assert_eq!(response.code(), Some(67));
}

#[test]
fn code_returns_none_when_absent() {
    let response = Error::new(
        "playback service unreachable",
        None,
        None,
        StatusCode::INTERNAL_SERVER_ERROR,
    );

    // Getter must return None when constructed without a code
    assert_eq!(response.code(), None);
}

#[test]
fn error_data_returns_constructed_value() {
    let response = Error::new("upstream failure", None, Some(trace()), StatusCode::BAD_GATEWAY);

    // Getter must return the data the response was constructed with
    assert_eq!(response.data(), Some(&trace()));
}

#[test]
fn error_data_returns_none_when_absent() {
    let response = Error::new(
        "playback service unreachable",
        None,
        None,
        StatusCode::INTERNAL_SERVER_ERROR,
    );

    // Getter must return None when constructed without data
    assert_eq!(response.data(), None);
}

#[test]
fn error_body_is_exact_bytes_in_member_order() {
    let http_response = Error::new("rate limited", Some(67), Some(trace()), StatusCode::TOO_MANY_REQUESTS)
        .into_response()
        .unwrap();
    assert_eq!(
        http_response.body(),
        b"{\"status\":\"error\",\"message\":\"rate limited\",\"code\":67,\"data\":{\"service\":\"playback_api\",\"trace_id\":\"42736\"}}"
            .as_slice()
    );
    assert_eq!(http_response.status(), StatusCode::TOO_MANY_REQUESTS);
}

#[test]
fn error_message_is_escaped() {
    let http_response = Error::new("line\nbreak", None, None, StatusCode::INTERNAL_SERVER_ERROR)
        .into_response()
        .unwrap();
    assert_eq!(
        http_response.body(),
        b"{\"status\":\"error\",\"message\":\"line\\nbreak\"}".as_slice()
    );
}

#[test]
fn error_http_status_getter_returns_constructed_value() {
    let response = Error::new("down", None, None, StatusCode::SERVICE_UNAVAILABLE);
    assert_eq!(response.http_status(), StatusCode::SERVICE_UNAVAILABLE);
}

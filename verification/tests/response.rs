use http::header::CONTENT_TYPE;
use http::StatusCode;
use jsender::json::JsonValue;
use jsender::response::IntoResponse;
use jsender::success::Success;
use serde_json::Value;

fn object(pairs: Vec<(&str, &str)>) -> JsonValue {
    JsonValue::object(
        pairs
            .into_iter()
            .map(|(k, v)| (k.to_string(), JsonValue::Str(v.to_string())))
            .collect(),
    )
}

fn to_json<R: IntoResponse>(response: R) -> Value {
    let http_response = response
        .into_response()
        .expect("serialisation should succeed");
    serde_json::from_slice(http_response.body()).expect("body should be valid JSON")
}

#[test]
fn response_http_status_field_is_not_serialised() {
    let response = Success::new(
        Some(object(vec![("title", "End of the World Sun")])),
        StatusCode::IM_A_TEAPOT,
    );

    // The bound HTTP status must never appear in the JSON body
    assert!(to_json(response).get("http_status").is_none());
}

#[test]
fn response_into_response_reflects_provided_status_code() {
    let response = Success::new(
        Some(object(vec![("title", "Outlier/EOTWS_Variation1")])),
        StatusCode::NOT_FOUND,
    );

    let http_response = response
        .into_response()
        .expect("serialisation should succeed");

    // Response must carry the HTTP status code it was constructed with
    assert_eq!(http_response.status(), StatusCode::NOT_FOUND);
}

#[test]
fn response_into_response_sets_json_content_type() {
    let response = Success::new(
        Some(JsonValue::object(vec![(
            "writers".to_string(),
            JsonValue::Array(vec![JsonValue::Str("65daysofstatic".to_string())]),
        )])),
        StatusCode::OK,
    );

    let http_response = response
        .into_response()
        .expect("serialisation should succeed");

    // Returned HTTP response must declare a JSON content type
    assert_eq!(http_response.content_type(), "application/json");
}

#[test]
fn into_http_carries_status_header_and_body() {
    let response = Success::new(Some(JsonValue::Bool(true)), StatusCode::ACCEPTED)
        .into_response()
        .unwrap();
    let body = response.body().to_vec();
    let http_response = response.into_http();
    assert_eq!(http_response.status(), StatusCode::ACCEPTED);
    assert_eq!(
        http_response.headers().get(CONTENT_TYPE).unwrap(),
        "application/json"
    );
    assert_eq!(http_response.body(), &body);
    assert_eq!(
        http_response.body().as_slice(),
        b"{\"status\":\"success\",\"data\":true}".as_slice()
    );
}

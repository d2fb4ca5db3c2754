//! JSend success responses.
use vstd::prelude::*;
use crate::body::{encode_member, frame_success, success_body};
use crate::json::{json_text, option_view, JsonValue, JsonView};
use crate::response::{utf8, IntoResponse, JsonResponse, ResponseError, Status};

verus! {

/// A [JSend success](https://github.com/omniti-labs/jsend#success) response
/// body.
///
/// A `success` response means the call completed without error. The `status`
/// member is always `"success"`, and the `data` member is always present as
/// the wrapper for whatever the call returns.
pub struct Success {
    status: Status,
    data: Option<JsonValue>,
    http_status: http::StatusCode,
}

/// The value written as the `data` member: the data, or `null` without it.
pub open spec fn data_or_null(data: Option<JsonValue>) -> JsonValue {
    match data {
        Some(d) => d,
        None => JsonValue::Null,
    }
}

impl Success {
    #[verifier::type_invariant]
    spec fn well_formed(self) -> bool {
        self.status == Status::Success
    }

    pub closed spec fn spec_data(&self) -> Option<JsonValue> {
        self.data
    }

    pub closed spec fn spec_http_status(&self) -> http::StatusCode {
        self.http_status
    }

    /// Builds a new `Success` response.
    ///
    /// Pass the data to return in the response body as `Some`, or `None` when
    /// there is nothing to return, such as after a delete. `None` serialises
    /// as `data: null`, never omitting the member.
    ///
    /// `http_status` is the HTTP status code this response is paired with by
    /// [`IntoResponse::into_response`]; a `2xx` code is typical.
    pub fn new(data: Option<JsonValue>, http_status: http::StatusCode) -> (r: Success)
        ensures
            r.spec_data() == data,
            r.spec_http_status() == http_status,
    {
        Success { status: Status::Success, data, http_status }
    }

    /// The status this response was built with; always `Status::Success`.
    pub fn status(&self) -> (r: &Status)
        ensures
            *r == Status::Success,
    {
        proof {
            use_type_invariant(self);
        }
        &self.status
    }

    /// The data this response was built with, if any.
    pub fn data(&self) -> (r: Option<&JsonValue>)
        ensures
            r is Some <==> self.spec_data() is Some,
            r is Some ==> *r->0 == self.spec_data()->0,
    {
        self.data.as_ref()
    }
}

impl IntoResponse for Success {
    open spec fn response_status(&self) -> http::StatusCode {
        self.spec_http_status()
    }

    /// The serialised body: the `status` member, then `data`, `null` when
    /// there is no data.
    open spec fn response_body(&self) -> Seq<u8> {
        success_body(json_text(data_or_null(self.spec_data())@))
    }

    fn http_status(&self) -> (r: http::StatusCode)
        ensures
            r == self.spec_http_status(),
    {
        self.http_status
    }

    fn into_response(self) -> (r: Result<JsonResponse, ResponseError>)
        ensures
            r is Ok,
            r matches Ok(response) ==> response.spec_status() == self.spec_http_status()
                && response.spec_body() == self.response_body(),
    {
        let encoded = match &self.data {
            Some(d) => encode_member(d),
            None => encode_member(&JsonValue::Null),
        };
        match encoded {
            Ok(text) => Ok(JsonResponse::new(self.http_status, frame_success(text.as_slice()))),
            Err(e) => Err(e),
        }
    }
}

/// The HTTP status code is never part of the body: two success responses
/// whose data hold the same value have the same body, whatever their status
/// codes.
pub proof fn lemma_success_body_ignores_http_status(a: Success, b: Success)
    requires
        option_view(a.spec_data()) == option_view(b.spec_data()),
    ensures
        a.response_body() == b.response_body(),
{
}

/// The body of a success response is `{"status":"success","data":`, then
/// the JSON text of the very data it was built with, whatever that value is,
/// or the JSON text of `null` where it was built without data, then `}`.
pub proof fn lemma_success_body(response: Success)
    ensures
        response.spec_data() matches Some(d) ==> response.response_body() == utf8(
            "{\"status\":\"success\",\"data\":",
        ) + json_text(d@) + utf8("}"),
        response.spec_data() is None ==> response.response_body() == utf8(
            "{\"status\":\"success\",\"data\":",
        ) + json_text(JsonView::Null) + utf8("}"),
{
}

} // verus!

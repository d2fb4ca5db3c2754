//! JSend error responses.
use vstd::prelude::*;
use crate::body::{encode_member, error_body, frame_error, lemma_error_body_layout};
use crate::json::{json_text, option_view, JsonValue, JsonView};
use crate::response::{utf8, IntoResponse, JsonResponse, ResponseError, Status};

verus! {

/// A [JSend error](https://github.com/omniti-labs/jsend#error) response body.
///
/// An `error` response means a server-side failure has occurred. The
/// `status` member is always `"error"`, and the `message` member is always
/// present. The `code` and `data` members are optional.
pub struct Error {
    status: Status,
    message: String,
    code: Option<usize>,
    data: Option<JsonValue>,
    http_status: http::StatusCode,
}

/// The JSON text of the `code` member, where there is a code.
pub open spec fn code_text(code: Option<usize>) -> Option<Seq<u8>> {
    match code {
        Some(c) => Some(json_text(JsonView::U64(c as u64))),
        None => None,
    }
}

/// The JSON text of the `data` member, where there is data.
pub open spec fn data_text(data: Option<JsonValue>) -> Option<Seq<u8>> {
    match data {
        Some(d) => Some(json_text(d@)),
        None => None,
    }
}

impl Error {
    #[verifier::type_invariant]
    spec fn well_formed(self) -> bool {
        self.status == Status::Error
    }

    pub closed spec fn spec_message(&self) -> String {
        self.message
    }

    pub closed spec fn spec_code(&self) -> Option<usize> {
        self.code
    }

    pub closed spec fn spec_data(&self) -> Option<JsonValue> {
        self.data
    }

    pub closed spec fn spec_http_status(&self) -> http::StatusCode {
        self.http_status
    }

    /// Builds a new `Error` response.
    ///
    /// Pass `message` as a meaningful user-readable message explaining what
    /// went wrong. The optional `code` is a numeric error code, and the
    /// optional `data` is a free-form container for extra information about
    /// the error (e.g. conditions causing the error, stack trace). Passing
    /// `None` for either omits that member.
    ///
    /// `http_status` is the HTTP status code this response is paired with by
    /// [`IntoResponse::into_response`]; a `5xx` code is typical.
    pub fn new(
        message: &str,
        code: Option<usize>,
        data: Option<JsonValue>,
        http_status: http::StatusCode,
    ) -> (r: Error)
        ensures
            r.spec_message()@ == message@,
            r.spec_code() == code,
            r.spec_data() == data,
            r.spec_http_status() == http_status,
    {
        Error { status: Status::Error, message: message.to_owned(), code, data, http_status }
    }

    /// The status this response was built with; always `Status::Error`.
    pub fn status(&self) -> (r: &Status)
        ensures
            *r == Status::Error,
    {
        proof {
            use_type_invariant(self);
        }
        &self.status
    }

    /// The message this response was built with.
    pub fn message(&self) -> (r: &str)
        ensures
            r@ == self.spec_message()@,
    {
        self.message.as_str()
    }

    /// The numeric error code this response was built with, if any.
    pub fn code(&self) -> (r: Option<usize>)
        ensures
            r == self.spec_code(),
    {
        self.code
    }

    /// The data this response was built with, if any.
    pub fn data(&self) -> (r: Option<&JsonValue>)
        ensures
            r is Some <==> self.spec_data() is Some,
            r is Some ==> *r->0 == self.spec_data()->0,
    {
        self.data.as_ref()
    }
}

impl IntoResponse for Error {
    open spec fn response_status(&self) -> http::StatusCode {
        self.spec_http_status()
    }

    /// The serialised body: the `status` and `message` members, then `code`
    /// and `data` where they were given.
    open spec fn response_body(&self) -> Seq<u8> {
        error_body(
            json_text(JsonView::Str(self.spec_message()@)),
            code_text(self.spec_code()),
            data_text(self.spec_data()),
        )
    }

    fn http_status(&self) -> (r: http::StatusCode)
        ensures
            r == self.spec_http_status(),
    {
        self.http_status
    }

    fn into_response(self) -> (r: Result<JsonResponse, ResponseError>)
        ensures
            r is Ok,
            r matches Ok(response) ==> response.spec_status() == self.spec_http_status()
                && response.spec_body() == self.response_body(),
    {
        let message = match encode_member(&JsonValue::Str(self.message.clone())) {
            Ok(text) => text,
            Err(e) => {
                return Err(e);
            },
        };
        let code = match self.code {
            Some(c) => match encode_member(&JsonValue::U64(c as u64)) {
                Ok(text) => Some(text),
                Err(e) => {
                    return Err(e);
                },
            },
            None => None,
        };
        let data = match &self.data {
            Some(d) => match encode_member(d) {
                Ok(text) => Some(text),
                Err(e) => {
                    return Err(e);
                },
            },
            None => None,
        };
        let code_slice: Option<&[u8]> = match &code {
            Some(t) => Some(t.as_slice()),
            None => None,
        };
        let data_slice: Option<&[u8]> = match &data {
            Some(t) => Some(t.as_slice()),
            None => None,
        };
        let body = frame_error(message.as_slice(), code_slice, data_slice);
        Ok(JsonResponse::new(self.http_status, body))
    }
}

/// The HTTP status code is never part of the body: two error responses with
/// the same message, code and data have the same body, whatever their status
/// codes.
pub proof fn lemma_error_body_ignores_http_status(a: Error, b: Error)
    requires
        a.spec_message()@ == b.spec_message()@,
        a.spec_code() == b.spec_code(),
        option_view(a.spec_data()) == option_view(b.spec_data()),
    ensures
        a.response_body() == b.response_body(),
{
}

/// The body of an error response is `{"status":"error","message":` and the
/// JSON text of its message; then `,"code":` and the JSON text of the code
/// exactly when it has a code; then `,"data":` and the JSON text of its data,
/// whatever value that is, exactly when it has data; then `}`.
pub proof fn lemma_error_body(response: Error)
    ensures
        ({
            let head = utf8("{\"status\":\"error\",\"message\":") + json_text(
                JsonView::Str(response.spec_message()@),
            );
            &&& response.spec_code() is None && response.spec_data() is None
                ==> response.response_body() == head + utf8("}")
            &&& response.spec_code() is Some && response.spec_data() is None
                ==> response.response_body() == head + utf8(",\"code\":") + json_text(
                JsonView::U64(response.spec_code()->0 as u64),
            ) + utf8("}")
            &&& response.spec_code() is None && response.spec_data() is Some
                ==> response.response_body() == head + utf8(",\"data\":") + json_text(response.spec_data()->0@) + utf8(
                "}",
            )
            &&& response.spec_code() is Some && response.spec_data() is Some
                ==> response.response_body() == head + utf8(",\"code\":") + json_text(
                JsonView::U64(response.spec_code()->0 as u64),
            ) + utf8(",\"data\":") + json_text(response.spec_data()->0@) + utf8("}")
        }),
{
    lemma_error_body_layout(
        json_text(JsonView::Str(response.spec_message()@)),
        code_text(response.spec_code()),
        data_text(response.spec_data()),
    );
}

} // verus!

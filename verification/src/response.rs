//! Pairing a JSend body with the HTTP status code it is served with.
use vstd::prelude::*;
use vstd::utf8::encode_utf8;

verus! {

#[verifier::external_type_specification]
#[verifier::external_body]
pub struct ExStatusCode(http::StatusCode);

#[verifier::external_type_specification]
#[verifier::external_body]
#[verifier::reject_recursive_types(T)]
pub struct ExHttpResponse<T>(http::Response<T>);

/// The status discriminator of a JSend response body, indicating whether the
/// call was a success, a fail, or an error.
#[derive(Debug, PartialEq, Eq, Structural, Clone, Copy)]
pub enum Status {
    Success,
    Fail,
    Error,
}

/// Turning a JSend body into a response failed: the JSON encoder refused a
/// value.
#[derive(Debug, PartialEq, Eq, Structural, Clone, Copy)]
pub enum ResponseError {
    Serialisation,
}

/// The media type of every JSend body.
pub open spec fn json_media_type() -> Seq<char> {
    "application/json"@
}

/// The characters that an HTTP header value may hold: a tab, or any character
/// from the space on but DEL.
pub open spec fn header_text_ok(s: Seq<char>) -> bool {
    forall|i: int| 0 <= i < s.len() ==> (s[i] == '\t' || (' ' <= s[i] && s[i] != '\u{7f}'))
}

/// A serialised JSend body with the status code it is served with; it is
/// served with the content type `application/json`.
pub struct JsonResponse {
    status: http::StatusCode,
    body: Vec<u8>,
}

impl JsonResponse {
    pub closed spec fn spec_status(&self) -> http::StatusCode {
        self.status
    }

    pub closed spec fn spec_body(&self) -> Seq<u8> {
        self.body@
    }

    pub(crate) fn new(status: http::StatusCode, body: Vec<u8>) -> (r: JsonResponse)
        ensures
            r.spec_status() == status,
            r.spec_body() == body@,
    {
        JsonResponse { status, body }
    }

    /// The HTTP status code of the response.
    pub fn status(&self) -> (r: http::StatusCode)
        ensures
            r == self.spec_status(),
    {
        self.status
    }

    /// The serialised JSON body.
    pub fn body(&self) -> (r: &[u8])
        ensures
            r@ == self.spec_body(),
    {
        self.body.as_slice()
    }

    /// The value of the `Content-Type` header: always `application/json`.
    pub fn content_type(&self) -> (r: &'static str)
        ensures
            r@ == json_media_type(),
            header_text_ok(r@),
    {
        proof {
            reveal_strlit("application/json");
        }
        "application/json"
    }

    /// The same response as an [`http::Response`], with its status code, a
    /// `Content-Type` header of `application/json` and its body.
    pub fn into_http(self) -> (r: http::Response<Vec<u8>>)
        ensures
            r == http_response(self.spec_status(), json_media_type(), self.spec_body()),
    {
        let content_type = self.content_type();
        build_http_response(self.status, content_type, self.body)
    }
}

/// The `http::Response` built with status code `status`, the one header
/// `Content-Type: content_type` and the body `body`.
pub uninterp spec fn http_response(
    status: http::StatusCode,
    content_type: Seq<char>,
    body: Seq<u8>,
) -> http::Response<Vec<u8>>;

/// Calls `http::Response::builder()` with `.status(status)`,
/// `.header(CONTENT_TYPE, content_type)` and `.body(body)`. The builder fails
/// only on a header value that holds a byte below 32 other than a tab, or DEL,
/// which the precondition rules out, so the final `expect` does not panic.
/// Claimed: the response is `http_response(status, content_type@, body@)`, a
/// function of the status code, the header value and the body alone.
#[verifier::external_body]
fn build_http_response(status: http::StatusCode, content_type: &str, body: Vec<u8>) -> (r:
    http::Response<Vec<u8>>)
    requires
        header_text_ok(content_type@),
    ensures
        r == http_response(status, content_type@, body@),
{
    http::Response::builder().status(status).header(http::header::CONTENT_TYPE, content_type).body(
        body,
    ).expect("status code and header value are always valid")
}

/// Serialising a JSend body and pairing it with its HTTP status code.
pub trait IntoResponse: Sized {
    /// The HTTP status code given at construction time.
    spec fn response_status(&self) -> http::StatusCode;

    /// The serialised JSON body.
    spec fn response_body(&self) -> Seq<u8>;

    /// The HTTP status code this response should be served with, as given at
    /// construction time.
    fn http_status(&self) -> (r: http::StatusCode)
        ensures
            r == self.response_status(),
    ;

    /// Serialises the body to JSON and pairs it with the HTTP status code.
    fn into_response(self) -> (r: Result<JsonResponse, ResponseError>)
        ensures
            r matches Ok(response) ==> response.spec_status() == self.response_status()
                && response.spec_body() == self.response_body(),
    ;
}

/// The bytes of `text` in UTF-8.
pub open spec fn utf8(text: &str) -> Seq<u8> {
    encode_utf8(text@)
}

/// Appends `bytes` to `out`.
pub(crate) fn append_bytes(out: &mut Vec<u8>, bytes: &[u8])
    ensures
        final(out)@ == old(out)@ + bytes@,
{
    let mut i: usize = 0;
    while i < bytes.len()
        invariant
            i <= bytes@.len(),
            out@ == old(out)@ + bytes@.subrange(0, i as int),
        decreases bytes@.len() - i,
    {
        out.push(bytes[i]);
        i = i + 1;
        assert(out@ =~= old(out)@ + bytes@.subrange(0, i as int));
    }
    assert(bytes@.subrange(0, bytes@.len() as int) =~= bytes@);
}

/// Appends the UTF-8 bytes of `text` to `out`.
pub(crate) fn append_text(out: &mut Vec<u8>, text: &str)
    ensures
        final(out)@ == old(out)@ + utf8(text),
{
    append_bytes(out, text.as_bytes());
}

} // verus!

//! JSend fail responses.
use vstd::prelude::*;
use crate::body::{encode_member, fail_body, frame_fail};
use crate::json::{
    collect_members, has_key, json_text, keys_sorted, last_value, lemma_object_from_pairs, JsonValue,
};
use crate::response::{utf8, IntoResponse, JsonResponse, ResponseError, Status};

verus! {

/// A [JSend fail](https://github.com/omniti-labs/jsend#fail) response body.
///
/// A `fail` response means the call was rejected due to invalid data or call
/// conditions. The `status` member is always `"fail"`, and the `data` member,
/// an object, is always present.
pub struct Fail {
    status: Status,
    data: JsonValue,
    http_status: http::StatusCode,
}

impl Fail {
    #[verifier::type_invariant]
    spec fn well_formed(self) -> bool {
        &&& self.status == Status::Fail
        &&& self.data matches JsonValue::Object(members) && keys_sorted(members@)
    }

    pub closed spec fn spec_data(&self) -> JsonValue {
        self.data
    }

    pub closed spec fn spec_http_status(&self) -> http::StatusCode {
        self.http_status
    }

    /// Builds a new `Fail` response.
    ///
    /// Pass the key/value pairs describing what went wrong (typically
    /// validation errors keyed by the offending field name); `data` is the
    /// JSON object built from the pairs, a later pair replacing the value of
    /// an earlier one with the same key. No pairs give `data: {}`, never
    /// omitting the member.
    ///
    /// `http_status` is the HTTP status code this response is paired with by
    /// [`IntoResponse::into_response`]; a `4xx` code is typical.
    pub fn new(pairs: Vec<(String, JsonValue)>, http_status: http::StatusCode) -> (r: Fail)
        ensures
            r.spec_data() matches JsonValue::Object(members) && members@ == collect_members(pairs@),
            r.spec_http_status() == http_status,
    {
        proof {
            lemma_object_from_pairs(pairs@);
        }
        let data = JsonValue::object(pairs);
        Fail { status: Status::Fail, data, http_status }
    }

    /// The status this response was built with; always `Status::Fail`.
    pub fn status(&self) -> (r: &Status)
        ensures
            *r == Status::Fail,
    {
        proof {
            use_type_invariant(self);
        }
        &self.status
    }

    /// The data object built from the pairs this response was built with.
    pub fn data(&self) -> (r: &JsonValue)
        ensures
            *r == self.spec_data(),
    {
        &self.data
    }
}

impl IntoResponse for Fail {
    open spec fn response_status(&self) -> http::StatusCode {
        self.spec_http_status()
    }

    /// The serialised body: the `status` member, then the `data` object.
    open spec fn response_body(&self) -> Seq<u8> {
        fail_body(json_text(self.spec_data()@))
    }

    fn http_status(&self) -> (r: http::StatusCode)
        ensures
            r == self.spec_http_status(),
    {
        self.http_status
    }

    fn into_response(self) -> (r: Result<JsonResponse, ResponseError>)
        ensures
            r is Ok,
            r matches Ok(response) ==> response.spec_status() == self.spec_http_status()
                && response.spec_body() == self.response_body(),
    {
        match encode_member(&self.data) {
            Ok(text) => Ok(JsonResponse::new(self.http_status, frame_fail(text.as_slice()))),
            Err(e) => Err(e),
        }
    }
}

/// The HTTP status code is never part of the body: two fail responses whose
/// data hold the same value have the same body, whatever their status codes.
pub proof fn lemma_fail_body_ignores_http_status(a: Fail, b: Fail)
    requires
        a.spec_data()@ == b.spec_data()@,
    ensures
        a.response_body() == b.response_body(),
{
}

/// The body of a fail response is `{"status":"fail","data":`, then the JSON
/// text of exactly the data object the response holds (the one `data()`
/// returns, every member of it whatever its value), then `}`.
pub proof fn lemma_fail_body(response: Fail)
    ensures
        response.response_body() == utf8("{\"status\":\"fail\",\"data\":") + json_text(
            response.spec_data()@,
        ) + utf8("}"),
{
}

/// The data object of a fail response built from pairs holds every key of
/// the pairs, whatever its value, each with the value of its last pair, and
/// no other key.
pub proof fn lemma_fail_data_holds_every_pair(pairs: Seq<(String, JsonValue)>)
    ensures
        forall|key: Seq<char>|
            #[trigger] has_key(collect_members(pairs), key) <==> has_key(pairs, key),
        forall|i: int|
            0 <= i < collect_members(pairs).len() ==> last_value(
                pairs,
                #[trigger] collect_members(pairs)[i].0@,
            ) == Some(collect_members(pairs)[i].1),
{
    lemma_object_from_pairs(pairs);
}

} // verus!

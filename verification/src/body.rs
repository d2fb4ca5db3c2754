//! The layout of JSend bodies, as bytes.
//!
//! A body is a JSON object whose members come in a fixed order: `status`
//! first, then the members of its kind. The values of the members are
//! JSON texts written by the JSON encoder; this module frames them.
use vstd::prelude::*;
use crate::dto::JSendStatus;
use crate::json::{encode_json, json_text, JsonValue};
use crate::response::{append_bytes, append_text, utf8, ResponseError};

verus! {

/// `prefix` followed by `text`, or nothing when there is no text.
pub open spec fn optional_member(prefix: &str, text: Option<Seq<u8>>) -> Seq<u8> {
    match text {
        Some(t) => utf8(prefix) + t,
        None => Seq::empty(),
    }
}

/// The body of a success response whose `data` member is `data_text`.
pub open spec fn success_body(data_text: Seq<u8>) -> Seq<u8> {
    utf8("{\"status\":\"success\",\"data\":") + data_text + utf8("}")
}

/// The body of a fail response whose `data` member is `data_text`.
pub open spec fn fail_body(data_text: Seq<u8>) -> Seq<u8> {
    utf8("{\"status\":\"fail\",\"data\":") + data_text + utf8("}")
}

/// The body of an error response: the `message` member, then the `code` and
/// `data` members where they are given.
pub open spec fn error_body(
    message_text: Seq<u8>,
    code_text: Option<Seq<u8>>,
    data_text: Option<Seq<u8>>,
) -> Seq<u8> {
    utf8("{\"status\":\"error\",\"message\":") + message_text + optional_member(
        ",\"code\":",
        code_text,
    ) + optional_member(",\"data\":", data_text) + utf8("}")
}

/// An error body is the message member; then the code member exactly when a
/// code text is given; then the data member exactly when a data text is
/// given, whether or not there is a code; then `}`.
pub proof fn lemma_error_body_layout(
    message_text: Seq<u8>,
    code_text: Option<Seq<u8>>,
    data_text: Option<Seq<u8>>,
)
    ensures
        ({
            let head = utf8("{\"status\":\"error\",\"message\":") + message_text;
            &&& code_text is None && data_text is None ==> error_body(
                message_text,
                code_text,
                data_text,
            ) == head + utf8("}")
            &&& code_text is Some && data_text is None ==> error_body(
                message_text,
                code_text,
                data_text,
            ) == head + utf8(",\"code\":") + code_text->0 + utf8("}")
            &&& code_text is None && data_text is Some ==> error_body(
                message_text,
                code_text,
                data_text,
            ) == head + utf8(",\"data\":") + data_text->0 + utf8("}")
            &&& code_text is Some && data_text is Some ==> error_body(
                message_text,
                code_text,
                data_text,
            ) == head + utf8(",\"code\":") + code_text->0 + utf8(",\"data\":") + data_text->0 + utf8("}")
        }),
{
    let head = utf8("{\"status\":\"error\",\"message\":") + message_text;
    assert(head + Seq::<u8>::empty() =~= head);
    assert(head + Seq::<u8>::empty() + Seq::<u8>::empty() =~= head);
    match code_text {
        Some(c) => {
            assert(head + (utf8(",\"code\":") + c) =~= head + utf8(",\"code\":") + c);
            assert(head + (utf8(",\"code\":") + c) + Seq::<u8>::empty() =~= head + utf8(
                ",\"code\":",
            ) + c);
        },
        None => {},
    }
    match data_text {
        Some(d) => {
            match code_text {
                Some(c) => {
                    assert(head + (utf8(",\"code\":") + c) + (utf8(",\"data\":") + d) =~= head
                        + utf8(",\"code\":") + c + utf8(",\"data\":") + d);
                },
                None => {
                    assert(head + Seq::<u8>::empty() + (utf8(",\"data\":") + d) =~= head + utf8(
                        ",\"data\":",
                    ) + d);
                },
            }
        },
        None => {},
    }
}

/// The body of a `JSendResponse`: `{"status":` and the status in quotes;
/// then `,"message":` and the message text, `,"code":` and the code text,
/// `,"data":` and the data text, each exactly when that text is given and
/// whatever the others are; then `}`.
pub proof fn lemma_jsend_body_layout(
    status: JSendStatus,
    message_text: Option<Seq<u8>>,
    code_text: Option<Seq<u8>>,
    data_text: Option<Seq<u8>>,
)
    ensures
        jsend_body(status, message_text, code_text, data_text) == utf8("{\"status\":") + (
        match status {
            JSendStatus::Success => utf8("\"success\""),
            JSendStatus::Fail => utf8("\"fail\""),
            JSendStatus::Error => utf8("\"error\""),
        }) + (match message_text {
            Some(t) => utf8(",\"message\":") + t,
            None => Seq::empty(),
        }) + (match code_text {
            Some(t) => utf8(",\"code\":") + t,
            None => Seq::empty(),
        }) + (match data_text {
            Some(t) => utf8(",\"data\":") + t,
            None => Seq::empty(),
        }) + utf8("}"),
{
}

/// Frames a success body around the JSON text of its data.
pub fn frame_success(data_text: &[u8]) -> (r: Vec<u8>)
    ensures
        r@ == success_body(data_text@),
{
    let mut out: Vec<u8> = Vec::new();
    append_text(&mut out, "{\"status\":\"success\",\"data\":");
    append_bytes(&mut out, data_text);
    append_text(&mut out, "}");
    out
}

/// Frames a fail body around the JSON text of its data object.
pub fn frame_fail(data_text: &[u8]) -> (r: Vec<u8>)
    ensures
        r@ == fail_body(data_text@),
{
    let mut out: Vec<u8> = Vec::new();
    append_text(&mut out, "{\"status\":\"fail\",\"data\":");
    append_bytes(&mut out, data_text);
    append_text(&mut out, "}");
    out
}

/// Appends `prefix` and `text` when there is a text.
fn append_optional_member(out: &mut Vec<u8>, prefix: &str, text: Option<&[u8]>)
    ensures
        final(out)@ == old(out)@ + optional_member(
            prefix,
            match text {
                Some(t) => Some(t@),
                None => None,
            },
        ),
{
    match text {
        Some(t) => {
            append_text(out, prefix);
            append_bytes(out, t);
        },
        None => {
            assert(out@ =~= old(out)@ + Seq::<u8>::empty());
        },
    }
}

/// Frames an error body around the JSON texts of its message and, where
/// given, its code and its data.
pub fn frame_error(message_text: &[u8], code_text: Option<&[u8]>, data_text: Option<&[u8]>) -> (r:
    Vec<u8>)
    ensures
        r@ == error_body(
            message_text@,
            match code_text {
                Some(t) => Some(t@),
                None => None,
            },
            match data_text {
                Some(t) => Some(t@),
                None => None,
            },
        ),
{
    let mut out: Vec<u8> = Vec::new();
    append_text(&mut out, "{\"status\":\"error\",\"message\":");
    append_bytes(&mut out, message_text);
    append_optional_member(&mut out, ",\"code\":", code_text);
    append_optional_member(&mut out, ",\"data\":", data_text);
    append_text(&mut out, "}");
    out
}

/// The JSON text of a status.
pub open spec fn status_text(status: JSendStatus) -> Seq<u8> {
    match status {
        JSendStatus::Success => utf8("\"success\""),
        JSendStatus::Fail => utf8("\"fail\""),
        JSendStatus::Error => utf8("\"error\""),
    }
}

/// The body of a [`JSendResponse`](crate::dto::JSendResponse): `status`, then
/// `message`, `code` and `data` where they are present.
pub open spec fn jsend_body(
    status: JSendStatus,
    message_text: Option<Seq<u8>>,
    code_text: Option<Seq<u8>>,
    data_text: Option<Seq<u8>>,
) -> Seq<u8> {
    utf8("{\"status\":") + status_text(status) + optional_member(",\"message\":", message_text)
        + optional_member(",\"code\":", code_text) + optional_member(",\"data\":", data_text)
        + utf8("}")
}

/// The bytes of an optional slice.
pub open spec fn option_bytes(text: Option<&[u8]>) -> Option<Seq<u8>> {
    match text {
        Some(t) => Some(t@),
        None => None,
    }
}

/// Frames the body of a [`JSendResponse`](crate::dto::JSendResponse) around
/// the JSON texts of the members it has.
pub fn frame_jsend(
    status: JSendStatus,
    message_text: Option<&[u8]>,
    code_text: Option<&[u8]>,
    data_text: Option<&[u8]>,
) -> (r: Vec<u8>)
    ensures
        r@ == jsend_body(
            status,
            option_bytes(message_text),
            option_bytes(code_text),
            option_bytes(data_text),
        ),
{
    let mut out: Vec<u8> = Vec::new();
    append_text(&mut out, "{\"status\":");
    match status {
        JSendStatus::Success => append_text(&mut out, "\"success\""),
        JSendStatus::Fail => append_text(&mut out, "\"fail\""),
        JSendStatus::Error => append_text(&mut out, "\"error\""),
    }
    append_optional_member(&mut out, ",\"message\":", message_text);
    append_optional_member(&mut out, ",\"code\":", code_text);
    append_optional_member(&mut out, ",\"data\":", data_text);
    append_text(&mut out, "}");
    out
}

/// The JSON text of a member's value; a refusal of the encoder would become
/// [`ResponseError::Serialisation`], but the encoder does not refuse a JSON
/// value.
pub(crate) fn encode_member(value: &JsonValue) -> (r: Result<Vec<u8>, ResponseError>)
    ensures
        r is Ok,
        r matches Ok(text) ==> text@ == json_text(value@),
{
    match encode_json(value) {
        Some(text) => Ok(text),
        None => Err(ResponseError::Serialisation),
    }
}

} // verus!

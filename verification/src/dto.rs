//! A JSend body as one data type, with the members of all three kinds.
use vstd::prelude::*;
use crate::json::{collect_members, lemma_object_from_pairs, JsonValue};

verus! {

/// The status discriminator of a [`JSendResponse`].
#[derive(Debug, PartialEq, Eq, Structural, Clone, Copy)]
pub enum JSendStatus {
    Success,
    Fail,
    Error,
}

/// The `data` member of a [`JSendResponse`]: the data of a success, or a
/// JSON value for a fail or an error.
pub enum JSendData<T> {
    Data(Option<T>),
    Value(JsonValue),
}

/// A JSend body: the `status`, and the `message`, `code` and `data` members
/// where its kind has them.
pub struct JSendResponse<T> {
    pub(crate) status: JSendStatus,
    pub(crate) message: Option<String>,
    pub(crate) code: Option<usize>,
    pub(crate) data: Option<JSendData<T>>,
}

impl<T> JSendResponse<T> {
    pub closed spec fn spec_status(&self) -> JSendStatus {
        self.status
    }

    pub closed spec fn spec_message(&self) -> Option<String> {
        self.message
    }

    pub closed spec fn spec_code(&self) -> Option<usize> {
        self.code
    }

    pub closed spec fn spec_data(&self) -> Option<JSendData<T>> {
        self.data
    }

    /// A success body: `status` and `data`, which is present even without
    /// data; no `message`, no `code`.
    pub fn success(data: Option<T>) -> (r: Self)
        ensures
            r.spec_status() == JSendStatus::Success,
            r.spec_data() == Some(JSendData::Data(data)),
            r.spec_message() is None,
            r.spec_code() is None,
    {
        JSendResponse {
            status: JSendStatus::Success,
            data: Some(JSendData::Data(data)),
            message: None,
            code: None,
        }
    }

    /// A fail body: `status` and `data`, the JSON object built from the
    /// pairs, a later pair replacing the value of an earlier one with the
    /// same key; no `message`, no `code`.
    pub fn fail(pairs: Vec<(String, JsonValue)>) -> (r: Self)
        ensures
            r.spec_status() == JSendStatus::Fail,
            r.spec_data() matches Some(JSendData::Value(JsonValue::Object(members)))
                && members@ == collect_members(pairs@),
            r.spec_message() is None,
            r.spec_code() is None,
    {
        proof {
            lemma_object_from_pairs(pairs@);
        }
        let object = JsonValue::object(pairs);
        JSendResponse {
            status: JSendStatus::Fail,
            data: Some(JSendData::Value(object)),
            message: None,
            code: None,
        }
    }

    /// An error body: `status` and `message`, then `code` and `data` where
    /// they are given.
    pub fn error(message: &str, code: Option<usize>, data: Option<JsonValue>) -> (r: Self)
        ensures
            r.spec_status() == JSendStatus::Error,
            r.spec_message() matches Some(m) && m@ == message@,
            r.spec_code() == code,
            r.spec_data() == match data {
                Some(v) => Some(JSendData::<T>::Value(v)),
                None => None,
            },
    {
        let data = match data {
            Some(v) => Some(JSendData::Value(v)),
            None => None,
        };
        JSendResponse { status: JSendStatus::Error, message: Some(message.to_owned()), code, data }
    }

    /// The status of the body.
    pub fn status(&self) -> (r: JSendStatus)
        ensures
            r == self.spec_status(),
    {
        self.status
    }

    /// The `message` member, where there is one.
    pub fn message(&self) -> (r: Option<&str>)
        ensures
            r is Some <==> self.spec_message() is Some,
            r is Some ==> r->0@ == self.spec_message()->0@,
    {
        match &self.message {
            Some(m) => Some(m.as_str()),
            None => None,
        }
    }

    /// The `code` member, where there is one.
    pub fn code(&self) -> (r: Option<usize>)
        ensures
            r == self.spec_code(),
    {
        self.code
    }

    /// The `data` member, where there is one.
    pub fn data(&self) -> (r: Option<&JSendData<T>>)
        ensures
            r is Some <==> self.spec_data() is Some,
            r is Some ==> *r->0 == self.spec_data()->0,
    {
        self.data.as_ref()
    }
}

} // verus!

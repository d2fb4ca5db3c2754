//! JSend response bodies: `success`, `fail` and `error`, each paired with
//! the HTTP status code it is served with.
//!
//! A response is serialised to a JSON body and paired with its status code
//! by [`IntoResponse::into_response`]; [`JsonResponse::into_http`] turns the
//! result into an `http::Response`.
pub mod body;
pub mod dto;
pub mod error;
pub mod fail;
pub mod json;
pub mod keys;
pub mod response;
pub mod success;

pub use dto::{JSendData, JSendResponse, JSendStatus};
pub use error::Error;
pub use fail::Fail;
pub use json::JsonValue;
pub use response::{IntoResponse, JsonResponse, ResponseError, Status};
pub use success::Success;

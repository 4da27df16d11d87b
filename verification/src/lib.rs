//! A small HTTP client library: validated command arguments (URL and
//! `key=value` body pairs), construction of a single GET or POST request
//! with a flat JSON object body, and rendering of the response (status
//! line, headers, content-type-aware body formatting) as styled text.
//!
//! The library itself performs no network activity: it validates input,
//! builds a request description, and turns response data into the exact
//! text to print. An application around it does the sending.

use vstd::prelude::*;

pub mod args;
pub mod body;
pub mod render;
pub mod request;

verus! {

/// The closed set of failures: argument errors (a URL that does not parse,
/// a body token without a usable `key=value` shape), transport failures
/// reported by the application, and response-decoding failures. Each
/// variant carries a human-readable message.
#[derive(Debug, PartialEq, Eq)]
pub enum ClientError {
    InvalidUrl(String),
    MalformedPair(String),
    TransportError(String),
    DecodeError(String),
}

impl ClientError {
    /// The message carried by the error, whatever its variant.
    pub fn message(&self) -> (r: &String)
        ensures
            r@ == self.message_view(),
    {
        match self {
            ClientError::InvalidUrl(m) => m,
            ClientError::MalformedPair(m) => m,
            ClientError::TransportError(m) => m,
            ClientError::DecodeError(m) => m,
        }
    }

    pub open spec fn message_view(self) -> Seq<char> {
        match self {
            ClientError::InvalidUrl(m) => m@,
            ClientError::MalformedPair(m) => m@,
            ClientError::TransportError(m) => m@,
            ClientError::DecodeError(m) => m@,
        }
    }
}

} // verus!

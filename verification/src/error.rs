//! The two-tier error taxonomy of the client.
//!
//! Every call fails in one of two ways: the service answered with a
//! non-success status (a status-level error, carrying the status, the raw
//! body and the request URL unmodified), or it answered with a success
//! status whose body could not be read as the documented shape (a
//! decode-level error, carrying the same context plus what went wrong).

use vstd::prelude::*;

use crate::json::{chars_to_string, push_str_chars, push_u32_dec, spec_dec_str};

verus! {

/// Why a success response could not be decoded.
#[derive(Debug, Clone)]
pub enum DecodeFailure {
    /// The body stopped being well-formed JSON at this character position.
    Syntax { position: usize },
    /// The body is JSON, but not of the shape the endpoint documents; the
    /// field names the key that broke the shape (`$` for the whole body).
    Shape { field: String },
}

/// A failed exchange with the service.
#[derive(Debug)]
pub enum ZebedeeError {
    /// The service answered with a non-success status.
    Status { status: u16, body: String, url: String },
    /// The service said yes, but the body did not match the contract.
    Decode { status: u16, body: String, url: String, failure: DecodeFailure },
}

/// Whether `e` is the status-level error for this exchange, carrying the
/// status code, body and URL unmodified.
pub open spec fn spec_is_status_error(
    e: ZebedeeError,
    status: u16,
    body: Seq<char>,
    url: Seq<char>,
) -> bool {
    &&& e matches ZebedeeError::Status { status: s, body: b, url: u }
    &&& s == status
    &&& b@ == body
    &&& u@ == url
}

/// Whether `e` is a decode-level error for this exchange, carrying the
/// status code, body and URL unmodified.
pub open spec fn spec_is_decode_error(
    e: ZebedeeError,
    status: u16,
    body: Seq<char>,
    url: Seq<char>,
) -> bool {
    &&& e matches ZebedeeError::Decode { status: s, body: b, url: u, .. }
    &&& s == status
    &&& b@ == body
    &&& u@ == url
}

impl ZebedeeError {
    /// Whether this is a status-level failure.
    pub fn is_status(&self) -> (r: bool)
        ensures
            r == (*self is Status),
    {
        match self {
            ZebedeeError::Status { .. } => true,
            ZebedeeError::Decode { .. } => false,
        }
    }

    /// Whether this is a decode-level failure.
    pub fn is_decode(&self) -> (r: bool)
        ensures
            r == (*self is Decode),
    {
        match self {
            ZebedeeError::Status { .. } => false,
            ZebedeeError::Decode { .. } => true,
        }
    }

    /// One line of context for logging: the error kind, the decimal status
    /// code, the raw body and the URL, exactly as [`spec_describe`] lays
    /// them out.
    pub fn describe(&self) -> (r: String)
        ensures
            r@ == spec_describe(*self),
    {
        let mut out: Vec<char> = Vec::new();
        match self {
            ZebedeeError::Status { status, body, url } => {
                push_str_chars(&mut out, "status error: ");
                push_u32_dec(&mut out, *status as u32);
                push_str_chars(&mut out, ", body: ");
                push_str_chars(&mut out, body);
                push_str_chars(&mut out, ", url: ");
                push_str_chars(&mut out, url);
            },
            ZebedeeError::Decode { status, body, url, .. } => {
                push_str_chars(&mut out, "decode error despite success status ");
                push_u32_dec(&mut out, *status as u32);
                push_str_chars(&mut out, ", body: ");
                push_str_chars(&mut out, body);
                push_str_chars(&mut out, ", url: ");
                push_str_chars(&mut out, url);
            },
        }
        proof {
            assert(out@ =~= spec_describe(*self));
        }
        chars_to_string(&out)
    }

    /// The HTTP status of the failed exchange.
    pub fn status_code(&self) -> (r: u16)
        ensures
            *self matches ZebedeeError::Status { status, .. } ==> r == status,
            *self matches ZebedeeError::Decode { status, .. } ==> r == status,
    {
        match self {
            ZebedeeError::Status { status, .. } => *status,
            ZebedeeError::Decode { status, .. } => *status,
        }
    }
}

/// The text of [`ZebedeeError::describe`]: the kind, the decimal status
/// code, then the body and the URL unmodified.
pub open spec fn spec_describe(e: ZebedeeError) -> Seq<char> {
    match e {
        ZebedeeError::Status { status, body, url } => "status error: "@ + spec_dec_str(
            status as nat,
        ) + ", body: "@ + body@ + ", url: "@ + url@,
        ZebedeeError::Decode { status, body, url, .. } => "decode error despite success status "@
            + spec_dec_str(status as nat) + ", body: "@ + body@ + ", url: "@ + url@,
    }
}

/// Whether an HTTP status code counts as success: the 2xx range.
pub open spec fn spec_status_ok(status: u16) -> bool {
    200 <= status < 300
}

/// Tests an HTTP status for success; agrees with [`spec_status_ok`].
pub fn status_ok(status: u16) -> (r: bool)
    ensures
        r == spec_status_ok(status),
{
    200 <= status && status < 300
}

} // verus!

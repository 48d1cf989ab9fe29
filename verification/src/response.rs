//! The response model: a status code, headers, and a byte body.

use vstd::prelude::*;
use vstd::utf8::encode_utf8;
use crate::headers::HeaderMap;
use crate::text::bytes_of;

verus! {

pub const STATUS_OK: u16 = 200;
pub const STATUS_BAD_REQUEST: u16 = 400;
pub const STATUS_NOT_FOUND: u16 = 404;
pub const STATUS_METHOD_NOT_ALLOWED: u16 = 405;
pub const STATUS_INTERNAL_SERVER_ERROR: u16 = 500;
pub const STATUS_SERVICE_UNAVAILABLE: u16 = 503;

/// An outgoing response, as the router hands it back to the transport.
#[derive(Debug)]
pub struct Response {
    /// The status code.
    pub status: u16,
    /// The response headers.
    pub headers: HeaderMap,
    /// The response body.
    pub body: Vec<u8>,
}

impl Clone for Response {
    fn clone(&self) -> (r: Self)
        ensures
            r.status == self.status,
            r.headers@ == self.headers@,
            r.body@ == self.body@,
    {
        let body = self.body.clone();
        proof {
            assert(body@ =~= self.body@);
        }
        Response { status: self.status, headers: self.headers.clone(), body }
    }
}

impl Response {
    /// An empty response with the given status.
    pub fn new(status: u16) -> (r: Self)
        ensures
            r.status == status,
            r.headers@ == Seq::<crate::headers::HeaderEntry>::empty(),
            r.body@ == Seq::<u8>::empty(),
    {
        Response { status, headers: HeaderMap::new(), body: Vec::new() }
    }

    /// A response with the given status whose body is the UTF-8 encoding
    /// of the given text.
    pub fn with_text(status: u16, text: &str) -> (r: Self)
        ensures
            r.status == status,
            r.headers@ == Seq::<crate::headers::HeaderEntry>::empty(),
            r.body@ == encode_utf8(text@),
    {
        Response { status, headers: HeaderMap::new(), body: bytes_of(text) }
    }
}


/// A value to be written as an HTML body.
#[derive(Debug, Clone, Copy)]
pub struct Html<T>(pub T);


/// Why a pair could not become a header entry: the name or the value was
/// not acceptable on the wire.
#[derive(Debug)]
pub enum TryIntoHeaderErrorKind {
    Name,
    Value,
}

/// A header pair that could not be converted, with which half failed.
#[derive(Debug)]
pub struct TryIntoHeaderError {
    pub kind: TryIntoHeaderErrorKind,
}

impl TryIntoHeaderError {
    /// A failure converting the name.
    pub fn key() -> (r: Self)
        ensures
            r.kind is Name,
    {
        TryIntoHeaderError { kind: TryIntoHeaderErrorKind::Name }
    }

    /// A failure converting the value.
    pub fn value() -> (r: Self)
        ensures
            r.kind is Value,
    {
        TryIntoHeaderError { kind: TryIntoHeaderErrorKind::Value }
    }

    /// The status such a failure reports.
    pub fn status(&self) -> (r: u16)
        ensures
            r == STATUS_INTERNAL_SERVER_ERROR,
    {
        STATUS_INTERNAL_SERVER_ERROR
    }
}

} // verus!

//! The dispatch outcome and the response-finalizing step.
//!
//! Dispatch ends in a [`RouteFuture`]: either a selected service together
//! with the request it must be run on, or a response the router built
//! itself. Once a response exists, [`finalize_response`] performs the three
//! fixed post-processing steps: attach a pending `Allow` value if the
//! response lacks one, attach `Content-Length` if absent, and strip the
//! body for `HEAD` dispatch — in that order, so the recorded length
//! reflects the body before stripping.

use vstd::prelude::*;
use crate::headers::{HeaderEntry, spec_has_header};
use crate::request::Request;
use crate::response::Response;
use crate::text::{dec_chars, format_u64};

verus! {

/// The name of the `Allow` header, as the library writes it.
pub open spec fn allow_name() -> Seq<char> {
    "allow"@
}

/// The name of the `Content-Length` header, as the library writes it.
pub open spec fn content_length_name() -> Seq<char> {
    "content-length"@
}

/// The headers after finalization: a pending `Allow` value is attached
/// when none is present, then `Content-Length` is attached when none is
/// present, carrying the length of the body before any stripping.
pub open spec fn spec_finalized_headers(
    h: Seq<HeaderEntry>,
    body_len: int,
    allow: Option<Seq<char>>,
) -> Seq<HeaderEntry> {
    let h1 = if allow is Some && !spec_has_header(h, allow_name()) {
        h.push((allow_name(), allow->0))
    } else {
        h
    };
    if !spec_has_header(h1, content_length_name()) {
        h1.push((content_length_name(), dec_chars(body_len)))
    } else {
        h1
    }
}

/// The body after finalization: empty under `HEAD` stripping, else as is.
pub open spec fn spec_finalized_body(b: Seq<u8>, strip: bool) -> Seq<u8> {
    if strip {
        Seq::empty()
    } else {
        b
    }
}

/// Performs the fixed post-processing steps on a response.
pub fn finalize_response(resp: Response, allow: Option<String>, strip: bool) -> (r: Response)
    ensures
        r.status == resp.status,
        r.headers@ == spec_finalized_headers(
            resp.headers@,
            resp.body@.len() as int,
            match allow {
                Some(a) => Some(a@),
                None => None,
            },
        ),
        r.body@ == spec_finalized_body(resp.body@, strip),
{
    let mut resp = resp;
    match allow {
        Some(a) => {
            let name: String = "allow".to_owned();
            if !resp.headers.contains_key(&name) {
                resp.headers.append(name, a);
            }
        }
        None => {}
    }
    let cl_name: String = "content-length".to_owned();
    if !resp.headers.contains_key(&cl_name) {
        let value = format_u64(resp.body.len() as u64);
        resp.headers.append(cl_name, value);
    }
    if strip {
        resp.body = Vec::new();
        proof {
            assert(resp.body@ =~= Seq::<u8>::empty());
        }
    }
    resp
}

/// What dispatch resolved to: a pending service call, or a ready response.
pub enum RouteFutureKind<T> {
    /// A service was selected; it must be run on the carried request, and
    /// its response then finalized.
    Future { service: T, request: Request },
    /// The router built the response itself; it must still be finalized.
    Ready { response: Response },
}

/// The dispatch outcome, together with the finalization it still owes:
/// whether the body is stripped, and a pending `Allow` value.
pub struct RouteFuture<T> {
    /// The pending computation.
    pub kind: RouteFutureKind<T>,
    /// Whether the response body is replaced by an empty one.
    pub strip: bool,
    /// An `Allow` value to attach when the response has none.
    pub allow: Option<String>,
}

impl<T> RouteFuture<T> {
    /// Wraps a selected service and the request it must be run on.
    pub fn from_future(service: T, request: Request) -> (r: Self)
        ensures
            r.kind matches RouteFutureKind::Future { service: s, request: q } && s == service
                && q == request,
            r.strip == false,
            r.allow is None,
    {
        RouteFuture { kind: RouteFutureKind::Future { service, request }, strip: false, allow: None }
    }

    /// Wraps a response the router built itself.
    pub fn from_response(response: Response) -> (r: Self)
        ensures
            r.kind matches RouteFutureKind::Ready { response: p } && p == response,
            r.strip == false,
            r.allow is None,
    {
        RouteFuture { kind: RouteFutureKind::Ready { response }, strip: false, allow: None }
    }

    /// Sets whether the body is stripped after the inner response exists.
    pub fn strip_body(self, strip: bool) -> (r: Self)
        ensures
            r.kind == self.kind,
            r.strip == strip,
            r.allow == self.allow,
    {
        RouteFuture { strip, ..self }
    }

    /// Records an `Allow` value to attach if the response lacks one.
    pub fn allow_header(self, allow: String) -> (r: Self)
        ensures
            r.kind == self.kind,
            r.strip == self.strip,
            r.allow matches Some(a) && a == allow,
    {
        RouteFuture { allow: Some(allow), ..self }
    }

    /// The view of the pending `Allow` value.
    pub open spec fn spec_allow(self) -> Option<Seq<char>> {
        match self.allow {
            Some(a) => Some(a@),
            None => None,
        }
    }
}

impl RouteFuture<Response> {
    /// Resolves a dispatch whose services are responses themselves: the
    /// selected response is finalized and returned.
    pub fn into_response(self) -> (r: Response)
        ensures
            ({
                let inner = match self.kind {
                    RouteFutureKind::Future { service, .. } => service,
                    RouteFutureKind::Ready { response } => response,
                };
                r.status == inner.status && r.headers@ == spec_finalized_headers(
                    inner.headers@,
                    inner.body@.len() as int,
                    self.spec_allow(),
                ) && r.body@ == spec_finalized_body(inner.body@, self.strip)
            }),
    {
        let RouteFuture { kind, strip, allow } = self;
        let inner = match kind {
            RouteFutureKind::Future { service, request: _ } => service,
            RouteFutureKind::Ready { response } => response,
        };
        finalize_response(inner, allow, strip)
    }
}


impl<'a> RouteFuture<&'a Response> {
    /// Resolves a dispatch whose services are borrowed responses: the
    /// selected response is copied out and finalized.
    pub fn into_response(self) -> (r: Response)
        ensures
            ({
                let inner = match self.kind {
                    RouteFutureKind::Future { service, .. } => *service,
                    RouteFutureKind::Ready { response } => response,
                };
                r.status == inner.status && r.headers@ == spec_finalized_headers(
                    inner.headers@,
                    inner.body@.len() as int,
                    self.spec_allow(),
                ) && r.body@ == spec_finalized_body(inner.body@, self.strip)
            }),
    {
        let RouteFuture { kind, strip, allow } = self;
        let inner = match kind {
            RouteFutureKind::Future { service, request: _ } => service.clone(),
            RouteFutureKind::Ready { response } => response,
        };
        finalize_response(inner, allow, strip)
    }
}

} // verus!

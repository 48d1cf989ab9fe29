//! The request model: method, target path and query, headers, a byte body,
//! and the request-scoped extension slots the router fills during dispatch.

use vstd::prelude::*;
use crate::method::Method;
use crate::headers::HeaderMap;
use crate::url_params::UrlParams;

verus! {

/// The body-limit setting a limit layer records on a request.
#[derive(Debug, Clone, Copy, PartialEq, Eq, Structural)]
pub enum BodyLimitKind {
    /// The default limit is switched off.
    Disable,
    /// The body may hold at most this many bytes.
    Limit(usize),
}

/// Request-scoped values the dispatch path and middlewares attach for the
/// extraction pipeline to read. Created fresh for each request.
#[derive(Debug)]
pub struct Extensions {
    /// Parameters captured from the matched pattern.
    pub url_params: Option<UrlParams>,
    /// The registered pattern the request matched.
    pub matched_path: Option<String>,
    /// The accumulated pattern when the match lies inside a mounted
    /// service, where no full pattern exists.
    pub nested_matched_path: Option<String>,
    /// The request target before any prefix was stripped.
    pub original_path: Option<String>,
    /// The body limit a limit layer recorded.
    pub body_limit: Option<BodyLimitKind>,
}

impl Extensions {
    /// An empty extension set.
    pub fn new() -> (r: Self)
        ensures
            r.url_params is None,
            r.matched_path is None,
            r.nested_matched_path is None,
            r.original_path is None,
            r.body_limit is None,
    {
        Extensions {
            url_params: None,
            matched_path: None,
            nested_matched_path: None,
            original_path: None,
            body_limit: None,
        }
    }
}

/// An incoming request, as the transport hands it to the router.
#[derive(Debug)]
pub struct Request {
    /// The request verb.
    pub method: Method,
    /// The target path, beginning with `/`.
    pub path: String,
    /// The query part of the target, without the `?`, if one was present.
    pub query: Option<String>,
    /// The request headers.
    pub headers: HeaderMap,
    /// The request-scoped extension slots.
    pub extensions: Extensions,
    /// The request body.
    pub body: Vec<u8>,
}

impl Request {
    /// A request with the given verb and path, no query, no headers and an
    /// empty body.
    pub fn new(method: Method, path: String) -> (r: Self)
        ensures
            r.method == method,
            r.path@ == path@,
            r.query is None,
            r.headers@ == Seq::<crate::headers::HeaderEntry>::empty(),
            r.extensions.url_params is None,
            r.extensions.matched_path is None,
            r.extensions.nested_matched_path is None,
            r.extensions.original_path is None,
            r.extensions.body_limit is None,
            r.body@ == Seq::<u8>::empty(),
    {
        Request {
            method,
            path,
            query: None,
            headers: HeaderMap::new(),
            extensions: Extensions::new(),
            body: Vec::new(),
        }
    }
}

} // verus!

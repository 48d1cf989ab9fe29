//! The ordered, fallible extraction protocol.
//!
//! A handler's arguments are produced left to right: first the extractors
//! that read only request metadata, then at most one that consumes the
//! body. Each step yields a typed value or a rejection, and the pipeline
//! stops at the first rejection. Wrapping a step as optional or as an
//! outcome can never itself fail.

use vstd::prelude::*;
use crate::matched_path::MatchedPath;
use crate::request::{Request, BodyLimitKind};
use crate::url_params::UrlParams;

verus! {

/// Marker for extraction that reads only the request parts.
#[derive(Debug, Clone, Copy)]
pub enum ViaParts {
    Parts,
}

/// Marker for extraction that consumes the whole request.
#[derive(Debug, Clone, Copy)]
pub enum ViaRequest {
    Whole,
}

/// A layer that records a default body limit on each request.
#[derive(Debug, Clone)]
pub struct DefaultBodyLimit {
    pub kind: BodyLimitKind,
}

impl DefaultBodyLimit {
    /// Switches the default limit off.
    pub fn disable() -> (r: Self)
        ensures
            r.kind == BodyLimitKind::Disable,
    {
        DefaultBodyLimit { kind: BodyLimitKind::Disable }
    }

    /// Caps the body at the given number of bytes.
    pub fn max(limit: usize) -> (r: Self)
        ensures
            r.kind == BodyLimitKind::Limit(limit),
    {
        DefaultBodyLimit { kind: BodyLimitKind::Limit(limit) }
    }

    /// Wraps an inner service.
    pub fn layer<S>(&self, inner: S) -> (r: DefaultBodyLimitService<S>)
        ensures
            r.kind == self.kind,
            r.inner == inner,
    {
        DefaultBodyLimitService { inner, kind: self.kind }
    }
}

/// The service a body-limit layer produces: it records the limit on the
/// request and hands it on.
#[derive(Debug, Clone)]
pub struct DefaultBodyLimitService<S> {
    pub inner: S,
    pub kind: BodyLimitKind,
}

impl<S> DefaultBodyLimitService<S> {
    /// Records the limit on a request, as the service does before its
    /// inner service runs.
    pub fn apply(&self, req: &mut Request)
        ensures
            final(req).extensions.body_limit == Some(self.kind),
            final(req).method == old(req).method,
            final(req).path == old(req).path,
            final(req).query == old(req).query,
            final(req).headers == old(req).headers,
            final(req).body == old(req).body,
            final(req).extensions.url_params == old(req).extensions.url_params,
            final(req).extensions.matched_path == old(req).extensions.matched_path,
            final(req).extensions.nested_matched_path == old(req).extensions.nested_matched_path,
            final(req).extensions.original_path == old(req).extensions.original_path,
    {
        req.extensions.body_limit = Some(self.kind);
    }
}

/// The raw query string, if the request target had one.
#[derive(Debug)]
pub struct RawQuery(pub Option<String>);

impl RawQuery {
    /// Reads the query part; this extraction cannot fail.
    pub fn from_request_parts(req: &Request) -> (r: RawQuery)
        ensures
            match (r.0, req.query) {
                (Some(a), Some(b)) => a@ == b@,
                (None, None) => true,
                _ => false,
            },
    {
        match &req.query {
            Some(q) => RawQuery(Some(q.clone())),
            None => RawQuery(None),
        }
    }
}

/// Shared application state handed to a handler.
#[derive(Debug, Clone, Copy)]
pub struct State<S>(pub S);

impl<S: Clone> State<S> {
    /// Reads the state; this extraction cannot fail.
    pub fn from_state(state: &S) -> (r: State<S>)
        ensures
            vstd::pervasive::cloned::<S>(*state, r.0),
    {
        State(state.clone())
    }
}

/// The host the client addressed, as an extractor reports it.
#[derive(Debug, Clone)]
pub struct Host(pub String);

/// What a metadata extraction step may reject with.
#[derive(Debug)]
pub enum Rejection {
    /// No matched pattern was recorded on the request.
    MatchedPathMissing,
    /// No captured parameters were recorded on the request.
    MissingPathParams,
    /// A captured value failed UTF-8 decoding; the key names it.
    InvalidUtf8 { key: String },
}

/// One metadata extraction step: what to read from the request parts.
/// Wrapping a step as optional, or as an outcome, makes it infallible.
#[derive(Debug)]
pub enum PartsExtractor {
    /// The pattern the request matched.
    MatchedPath,
    /// The raw query string.
    RawQuery,
    /// The captured path parameters.
    RawPathParams,
    /// An inner step whose failure becomes an absent value.
    Optional(Box<PartsExtractor>),
    /// An inner step whose failure becomes an error value.
    Outcome(Box<PartsExtractor>),
}

/// One extracted value.
pub enum Extracted {
    MatchedPath(MatchedPath),
    RawQuery(RawQuery),
    RawPathParams(Vec<(String, String)>),
    /// An optional step's result: the value, or nothing.
    Maybe(Option<Box<Extracted>>),
    /// An outcome step's result: the value, or the rejection.
    Tried(Result<Box<Extracted>, Rejection>),
}

/// Whether a metadata step succeeds on a request. An optional or outcome
/// step always does.
pub open spec fn spec_step_succeeds(x: PartsExtractor, req: Request) -> bool
    decreases x,
{
    match x {
        PartsExtractor::MatchedPath => req.extensions.matched_path is Some,
        PartsExtractor::RawQuery => true,
        PartsExtractor::RawPathParams => req.extensions.url_params matches Some(
            UrlParams::Params(_),
        ),
        PartsExtractor::Optional(_) => true,
        PartsExtractor::Outcome(_) => true,
    }
}

/// What a successful metadata step yields: the value read from the
/// request parts, with a failed inner step of an optional or outcome
/// wrapper turned into an absent or error value.
pub open spec fn spec_extracted_ok(x: PartsExtractor, req: Request, v: Extracted) -> bool
    decreases x,
{
    match x {
        PartsExtractor::MatchedPath => v matches Extracted::MatchedPath(m) && (
        req.extensions.matched_path matches Some(p) && m.0@ == p@),
        PartsExtractor::RawQuery => v matches Extracted::RawQuery(q) && (match (
            q.0,
            req.query,
        ) {
            (Some(a), Some(b)) => a@ == b@,
            (None, None) => true,
            _ => false,
        }),
        PartsExtractor::RawPathParams => v matches Extracted::RawPathParams(ps) && (
        req.extensions.url_params matches Some(UrlParams::Params(stored)) && ps.deep_view()
            == stored.deep_view()),
        PartsExtractor::Optional(inner) => v matches Extracted::Maybe(o) && (if spec_step_succeeds(
            *inner,
            req,
        ) {
            o matches Some(b) && spec_extracted_ok(*inner, req, *b)
        } else {
            o is None
        }),
        PartsExtractor::Outcome(inner) => v matches Extracted::Tried(t) && (if spec_step_succeeds(
            *inner,
            req,
        ) {
            t matches Ok(b) && spec_extracted_ok(*inner, req, *b)
        } else {
            t matches Err(e) && spec_rejected(*inner, req, e)
        }),
    }
}

/// What a failing metadata step rejects with: the missing-pattern marker
/// for the matched-path step, and for the parameter step the recorded
/// UTF-8 marker's key, or the missing-parameters marker.
pub open spec fn spec_rejected(x: PartsExtractor, req: Request, e: Rejection) -> bool
    decreases x,
{
    match x {
        PartsExtractor::MatchedPath => e is MatchedPathMissing,
        PartsExtractor::RawQuery => false,
        PartsExtractor::RawPathParams => match req.extensions.url_params {
            Some(UrlParams::InvalidUtf8InPathParams { key }) => e matches Rejection::InvalidUtf8 {
                key: k,
            } && k@ == key@,
            Some(UrlParams::Params(_)) => false,
            None => e is MissingPathParams,
        },
        PartsExtractor::Optional(_) => false,
        PartsExtractor::Outcome(_) => false,
    }
}

/// Runs one metadata step against the request parts.
pub fn extract_one(x: &PartsExtractor, req: &Request) -> (r: Result<Extracted, Rejection>)
    ensures
        r is Ok <==> spec_step_succeeds(*x, *req),
        r matches Ok(v) ==> spec_extracted_ok(*x, *req, v),
        r matches Err(e) ==> spec_rejected(*x, *req, e),
    decreases *x,
{
    match x {
        PartsExtractor::MatchedPath => match MatchedPath::from_extensions(&req.extensions) {
            Some(m) => Ok(Extracted::MatchedPath(m)),
            None => Err(Rejection::MatchedPathMissing),
        },
        PartsExtractor::RawQuery => Ok(Extracted::RawQuery(RawQuery::from_request_parts(req))),
        PartsExtractor::RawPathParams => match &req.extensions.url_params {
            Some(UrlParams::Params(ps)) => Ok(Extracted::RawPathParams(clone_params(ps))),
            Some(UrlParams::InvalidUtf8InPathParams { key }) => Err(
                Rejection::InvalidUtf8 { key: key.clone() },
            ),
            None => Err(Rejection::MissingPathParams),
        },
        PartsExtractor::Optional(inner) => match extract_one(inner, req) {
            Ok(v) => Ok(Extracted::Maybe(Some(Box::new(v)))),
            Err(_) => Ok(Extracted::Maybe(None)),
        },
        PartsExtractor::Outcome(inner) => match extract_one(inner, req) {
            Ok(v) => Ok(Extracted::Tried(Ok(Box::new(v)))),
            Err(e) => Ok(Extracted::Tried(Err(e))),
        },
    }
}

fn clone_params(ps: &Vec<(String, String)>) -> (r: Vec<(String, String)>)
    ensures
        r.deep_view() == ps.deep_view(),
{
    let mut out: Vec<(String, String)> = Vec::new();
    let mut i: usize = 0;
    while i < ps.len()
        invariant
            0 <= i <= ps.len(),
            out@.len() == i,
            forall|j: int| 0 <= j < i ==> out@[j].0@ == ps@[j].0@ && out@[j].1@ == ps@[j].1@,
        decreases ps.len() - i,
    {
        out.push((ps[i].0.clone(), ps[i].1.clone()));
        i = i + 1;
    }
    proof {
        assert(out.deep_view() =~= ps.deep_view());
    }
    out
}

/// Runs the metadata steps in declared order against the request parts,
/// stopping at the first that rejects: the result is either one value per
/// step, or the position of the first failing step, every step before it
/// having succeeded. The request itself is not consumed, so a body
/// extractor can still run once afterwards.
pub fn run_parts_extractors(req: &Request, metas: &Vec<PartsExtractor>) -> (r: Result<
    Vec<Extracted>,
    (usize, Rejection),
>)
    ensures
        match r {
            Ok(vs) => vs@.len() == metas@.len() && (forall|i: int|
                0 <= i < metas@.len() ==> spec_step_succeeds(#[trigger] metas@[i], *req)) && (
            forall|i: int|
                0 <= i < metas@.len() ==> spec_extracted_ok(#[trigger] metas@[i], *req, vs@[i])),
            Err((i, e)) => {
                &&& 0 <= i < metas@.len()
                &&& !spec_step_succeeds(metas@[i as int], *req)
                &&& spec_rejected(metas@[i as int], *req, e)
                &&& forall|k: int| 0 <= k < i ==> spec_step_succeeds(#[trigger] metas@[k], *req)
            },
        },
{
    let mut out: Vec<Extracted> = Vec::new();
    let mut i: usize = 0;
    while i < metas.len()
        invariant
            0 <= i <= metas@.len(),
            out@.len() == i,
            forall|k: int| 0 <= k < i ==> spec_step_succeeds(#[trigger] metas@[k], *req),
            forall|k: int|
                0 <= k < i ==> spec_extracted_ok(#[trigger] metas@[k], *req, out@[k]),
        decreases metas@.len() - i,
    {
        match extract_one(&metas[i], req) {
            Ok(v) => {
                out.push(v);
            }
            Err(e) => {
                return Err((i, e));
            }
        }
        i = i + 1;
    }
    Ok(out)
}

/// Consumes the request and yields its body for the single body-consuming
/// extractor, after the metadata steps have run. Taking the body by value
/// is what keeps it from being read twice: there is no second copy to
/// hand to another extractor.
pub fn extract_body(req: Request) -> (r: Vec<u8>)
    ensures
        r@ == req.body@,
{
    req.body
}


/// A value to be read from the query string.
#[derive(Debug, Clone, Copy)]
pub struct Query<T>(pub T);

} // verus!

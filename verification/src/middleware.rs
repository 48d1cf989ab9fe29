//! Middleware factories: each wraps an inner service with a transform,
//! applied by wrapping and never by mutating the inner service.

use vstd::prelude::*;
use vstd::pervasive::cloned;
use crate::extract::PartsExtractor;
use crate::request::Request;

verus! {

/// A layer built from a request-and-next function.
#[derive(Debug, Clone, Copy)]
pub struct FromFnLayer<F, S> {
    pub f: F,
    pub state: S,
}

/// Builds a layer from a function that receives the request and the rest
/// of the stack.
pub fn from_fn<F>(f: F) -> (r: FromFnLayer<F, ()>)
    ensures
        r.f == f,
{
    FromFnLayer { f, state: () }
}

/// As [`from_fn`], with state the function can read.
pub fn from_fn_with_state<F, S>(state: S, f: F) -> (r: FromFnLayer<F, S>)
    ensures
        r.f == f,
        r.state == state,
{
    FromFnLayer { f, state }
}

/// The service a function layer produces.
#[derive(Debug, Clone, Copy)]
pub struct FromFn<F, S, I> {
    pub f: F,
    pub state: S,
    pub inner: I,
}

impl<F: Clone, S: Clone> FromFnLayer<F, S> {
    /// Wraps an inner service.
    pub fn layer<I>(&self, inner: I) -> (r: FromFn<F, S, I>)
        ensures
            cloned::<F>(self.f, r.f),
            cloned::<S>(self.state, r.state),
            r.inner == inner,
    {
        FromFn { f: self.f.clone(), state: self.state.clone(), inner }
    }
}

/// A layer built from a request transform.
#[derive(Debug, Clone, Copy)]
pub struct MapRequestLayer<F, S> {
    pub f: F,
    pub state: S,
}

/// Builds a layer that maps the request before the inner service runs.
pub fn map_request<F>(f: F) -> (r: MapRequestLayer<F, ()>)
    ensures
        r.f == f,
{
    MapRequestLayer { f, state: () }
}

/// As [`map_request`], with state the transform can read.
pub fn map_request_with_state<F, S>(state: S, f: F) -> (r: MapRequestLayer<F, S>)
    ensures
        r.f == f,
        r.state == state,
{
    MapRequestLayer { f, state }
}

/// The service a request-mapping layer produces.
#[derive(Debug, Clone, Copy)]
pub struct MapRequest<F, S, I> {
    pub f: F,
    pub state: S,
    pub inner: I,
}

impl<F: Clone, S: Clone> MapRequestLayer<F, S> {
    /// Wraps an inner service.
    pub fn layer<I>(&self, inner: I) -> (r: MapRequest<F, S, I>)
        ensures
            cloned::<F>(self.f, r.f),
            cloned::<S>(self.state, r.state),
            r.inner == inner,
    {
        MapRequest { f: self.f.clone(), state: self.state.clone(), inner }
    }
}

/// A layer built from a response transform.
#[derive(Debug, Clone, Copy)]
pub struct MapResponseLayer<F, S> {
    pub f: F,
    pub state: S,
}

/// Builds a layer that maps the response after the inner service ran.
pub fn map_response<F>(f: F) -> (r: MapResponseLayer<F, ()>)
    ensures
        r.f == f,
{
    MapResponseLayer { f, state: () }
}

/// As [`map_response`], with state the transform can read.
pub fn map_response_with_state<F, S>(state: S, f: F) -> (r: MapResponseLayer<F, S>)
    ensures
        r.f == f,
        r.state == state,
{
    MapResponseLayer { f, state }
}

/// The service a response-mapping layer produces.
#[derive(Debug, Clone, Copy)]
pub struct MapResponse<F, S, I> {
    pub f: F,
    pub state: S,
    pub inner: I,
}

impl<F: Clone, S: Clone> MapResponseLayer<F, S> {
    /// Wraps an inner service.
    pub fn layer<I>(&self, inner: I) -> (r: MapResponse<F, S, I>)
        ensures
            cloned::<F>(self.f, r.f),
            cloned::<S>(self.state, r.state),
            r.inner == inner,
    {
        MapResponse { f: self.f.clone(), state: self.state.clone(), inner }
    }
}

/// A layer that runs an extractor and only lets the request through when
/// it succeeds.
#[derive(Debug)]
pub struct FromExtractorLayer<S> {
    pub extractor: PartsExtractor,
    pub state: S,
}

/// Builds a layer gating requests on an extraction step.
pub fn from_extractor(extractor: PartsExtractor) -> (r: FromExtractorLayer<()>)
    ensures
        r.extractor == extractor,
{
    FromExtractorLayer { extractor, state: () }
}

/// As [`from_extractor`], with state.
pub fn from_extractor_with_state<S>(extractor: PartsExtractor, state: S) -> (r: FromExtractorLayer<
    S,
>)
    ensures
        r.extractor == extractor,
        r.state == state,
{
    FromExtractorLayer { extractor, state }
}

/// The service an extractor layer produces.
#[derive(Debug)]
pub struct FromExtractor<I> {
    pub extractor: PartsExtractor,
    pub inner: I,
}

impl<I> FromExtractor<I> {
    /// Whether the extraction step admits this request to the inner service.
    pub fn allows(&self, req: &Request) -> (r: bool)
        ensures
            r == crate::extract::spec_step_succeeds(self.extractor, *req),
    {
        match crate::extract::extract_one(&self.extractor, req) {
            Ok(_) => true,
            Err(_) => false,
        }
    }
}

} // verus!

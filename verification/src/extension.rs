//! Typed request-extension carriers and the layer that attaches one.

use vstd::prelude::*;

verus! {

/// A typed value attached to requests or responses.
#[derive(Debug, Clone, Copy)]
pub struct Extension<T>(pub T);

impl<T> Extension<T> {
    /// Wraps an inner service so that each request carries the value.
    pub fn layer<S>(self, inner: S) -> (r: AddExtension<S, T>)
        ensures
            r.value == self.0,
            r.inner == inner,
    {
        AddExtension { inner, value: self.0 }
    }
}

/// The service an extension layer produces: it attaches the value to each
/// request before the inner service runs.
#[derive(Debug, Clone, Copy)]
pub struct AddExtension<S, T> {
    pub inner: S,
    pub value: T,
}

} // verus!

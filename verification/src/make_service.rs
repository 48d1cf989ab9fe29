//! The maker that hands one service clone to each accepted connection.

use vstd::prelude::*;
use vstd::pervasive::cloned;

verus! {

/// Wraps a service; each connection gets a clone of it.
#[derive(Debug, Clone, Copy)]
pub struct IntoMakeService<S> {
    pub svc: S,
}

impl<S> IntoMakeService<S> {
    /// Wraps the service.
    pub fn new(s: S) -> (r: Self)
        ensures
            r.svc == s,
    {
        IntoMakeService { svc: s }
    }
}

impl<S: Clone> IntoMakeService<S> {
    /// The service for one more connection.
    pub fn make(&self) -> (r: S)
        ensures
            cloned::<S>(self.svc, r),
    {
        self.svc.clone()
    }
}

} // verus!

//! Adapting application handlers into dispatchable services.

use vstd::prelude::*;
use crate::make_service::IntoMakeService;

verus! {

/// Marker for handlers that are themselves response values.
#[derive(Debug, Clone, Copy)]
pub enum IntoResponseHandler {
    Value,
}

/// A handler wrapped in a layer, to be adapted once registered.
#[derive(Debug, Clone, Copy)]
pub struct Layered<L, H> {
    pub layer: L,
    pub handler: H,
}

/// A handler bound to its state: the service form of a handler.
#[derive(Debug, Clone, Copy)]
pub struct HandlerService<H, S> {
    pub handler: H,
    pub state: S,
}

impl<H, S> HandlerService<H, S> {
    /// Binds a handler to its state.
    pub fn new(handler: H, state: S) -> (r: Self)
        ensures
            r.handler == handler,
            r.state == state,
    {
        HandlerService { handler, state }
    }

    /// The bound state.
    pub fn state(&self) -> (r: &S)
        ensures
            r == &self.state,
    {
        &self.state
    }

    /// Wraps the service as a maker that clones it per connection.
    pub fn into_make_service(self) -> (r: IntoMakeService<Self>)
        ensures
            r.svc == self,
    {
        IntoMakeService::new(self)
    }
}

} // verus!

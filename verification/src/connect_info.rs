//! Carriers for per-connection data handed to handlers. Accepting the
//! connections themselves is transport work and lives outside the
//! library.

use vstd::prelude::*;
use crate::make_service::IntoMakeService;

verus! {

/// How per-connection data is derived from an accepted connection.
pub trait Connected<T>: Sized {
    /// The data recorded for one connection.
    fn connect_info(target: T) -> Self;
}

/// Per-connection data, as an extractor hands it to a handler.
#[derive(Debug, Clone, Copy)]
pub struct ConnectInfo<T>(pub T);

/// A fixed per-connection value, for exercising handlers without a
/// transport.
#[derive(Debug, Clone, Copy)]
pub struct MockConnectInfo<T>(pub T);

/// A maker that clones the service per connection and records the
/// connection's data on each request.
#[derive(Debug, Clone, Copy)]
pub struct IntoMakeServiceWithConnectInfo<S, C> {
    pub svc: S,
    pub connect_info: C,
}

impl<S, C> IntoMakeServiceWithConnectInfo<S, C> {
    /// Wraps the service.
    pub fn new(svc: S, connect_info: C) -> (r: Self)
        ensures
            r.svc == svc,
            r.connect_info == connect_info,
    {
        IntoMakeServiceWithConnectInfo { svc, connect_info }
    }
}

/// Wraps a service as a plain per-connection maker.
pub fn into_make_service<S>(svc: S) -> (r: IntoMakeService<S>)
    ensures
        r.svc == svc,
{
    IntoMakeService::new(svc)
}

/// Wraps a service as a per-connection maker that records connection
/// data.
pub fn into_make_service_with_connect_info<S, C>(svc: S, connect_info: C) -> (r:
    IntoMakeServiceWithConnectInfo<S, C>)
    ensures
        r.svc == svc,
        r.connect_info == connect_info,
{
    IntoMakeServiceWithConnectInfo::new(svc, connect_info)
}

} // verus!

//! The composition root: an endpoint registry plus the router-level
//! fallback, dispatched when no pattern matches.

use vstd::prelude::*;
use vstd::string::StrSliceExecFns;
use crate::method_routing::MethodRouter;
use crate::path_router::{
    PathRouter, RouterError, spec_path_dispatch, spec_unmatched, spec_route_outcome,
    spec_route_conflict, spec_route_ok, spec_insert_ok, spec_has_route, spec_nested_route,
    spec_serves, spec_nest_wild, validate_nest_path, spec_nested_path, Endpoint, EndpointKind,
};
use crate::request::Request;
use crate::response::{Response, STATUS_NOT_FOUND};
use crate::route::{RouteFuture, RouteFutureKind};
use crate::trie::trie_contents;

verus! {

/// The application router: the registry of patterns and endpoints, and an optional
/// fallback service for requests no pattern matches. Without a fallback,
/// an unmatched request gets the built-in "not found" response.
pub struct AppRouter<T> {
    pub path_router: PathRouter<T>,
    pub fallback: Option<T>,
}

/// Whether a dispatch outcome of the whole router is accounted for: a
/// registered endpoint resolved a prepared form of the request, or the
/// request missed every pattern and fell back — to the fallback service,
/// or to the built-in "not found" response.
pub open spec fn spec_router_dispatch<T>(ar: AppRouter<T>, req: Request, r: RouteFuture<&T>) -> bool {
    ||| spec_path_dispatch(ar.path_router, req, r)
    ||| (exists|q: Request|
        {
            &&& #[trigger] spec_unmatched(req, q)
            &&& r.strip == false
            &&& r.allow is None
            &&& match ar.fallback {
                Some(f) => r.kind matches RouteFutureKind::Future { service, request } && *service
                    == f && request == q,
                None => r.kind matches RouteFutureKind::Ready { response } && response.status
                    == STATUS_NOT_FOUND && response.headers@ == Seq::<
                    crate::headers::HeaderEntry,
                >::empty() && response.body@ == Seq::<u8>::empty(),
            }
        })
}

impl<T> AppRouter<T> {
    /// The router invariant: the registry is well formed.
    pub open spec fn wf(self) -> bool {
        self.path_router.wf()
    }

    /// An empty router.
    pub fn new() -> (r: Self)
        ensures
            r.wf(),
            r.fallback is None,
            r.path_router.routes@.len() == 0,
            (trie_contents(r.path_router.node) == Map::<Seq<char>, u32>::empty()),
    {
        AppRouter { path_router: PathRouter::new(), fallback: None }
    }

    /// Sets the router-level fallback, replacing any earlier one.
    pub fn fallback_service(self, svc: T) -> (r: Self)
        ensures
            r.path_router == self.path_router,
            r.fallback == Some(svc),
    {
        AppRouter { fallback: Some(svc), ..self }
    }

    /// Dispatches a request: a matching pattern's endpoint resolves it;
    /// otherwise the fallback service runs on the request (with its
    /// original path recorded), or the built-in "not found" response
    /// stands.
    pub fn call_with_state<'a>(&'a self, req: Request) -> (r: RouteFuture<&'a T>)
        requires
            self.wf(),
        ensures
            spec_router_dispatch(*self, req, r),
    {
        match self.path_router.call_with_state(req) {
            Ok(fut) => fut,
            Err(q) => match &self.fallback {
                Some(f) => RouteFuture::from_future(f, q),
                None => RouteFuture::from_response(Response::new(STATUS_NOT_FOUND)),
            },
        }
    }
}

impl<T: Clone> AppRouter<T> {
    /// Registers a method table at a pattern.
    pub fn route(&mut self, path: &str, method_router: MethodRouter<T>) -> (r: Result<
        (),
        RouterError,
    >)
        requires
            old(self).wf(),
        ensures
            final(self).wf(),
            final(self).fallback == old(self).fallback,
            r is Ok <==> spec_route_ok(old(self).path_router, path@, method_router),
            r is Err ==> final(self).path_router.routes == old(self).path_router.routes && final(self).path_router.paths == old(self).path_router.paths && trie_contents(
                final(self).path_router.node,
            ) == trie_contents(old(self).path_router.node) && final(self).path_router.prev_route_id
                == old(self).path_router.prev_route_id,
            (path@.len() == 0 || path@[0] != '/') <==> r matches Err(RouterError::InvalidPath),
            (spec_route_conflict(old(self).path_router, path@, method_router) && path@.len() > 0
                && path@[0] == '/') ==> r matches Err(RouterError::Method(_)),
            match r {
                Ok(()) => {
                    &&& trie_contents(final(self).path_router.node).dom().contains(path@)
                    &&& exists|j: int|
                        0 <= j < final(self).path_router.routes@.len() && (#[trigger] final(self).path_router.routes@[j]).0 == trie_contents(
                            final(self).path_router.node,
                        )[path@] && match final(self).path_router.routes@[j].1.kind {
                            crate::path_router::EndpointKind::MethodRouter(mr) => spec_route_outcome(
                                old(self).path_router,
                                path@,
                                method_router,
                                mr,
                            ),
                            crate::path_router::EndpointKind::Route(_) => false,
                        }
                    &&& forall|p: Seq<char>|
                        #[trigger] trie_contents(old(self).path_router.node).dom().contains(p)
                            ==> trie_contents(final(self).path_router.node).dom().contains(p)
                },
                Err(e) => true,
            },
    {
        let owned: String = path.to_owned();
        self.path_router.route(&owned, method_router)
    }

    /// Registers one service for every verb at a pattern.
    pub fn route_service(&mut self, path: &str, svc: T) -> (r: Result<(), RouterError>)
        requires
            old(self).wf(),
        ensures
            final(self).wf(),
            final(self).fallback == old(self).fallback,
            r is Ok <==> spec_insert_ok(old(self).path_router, path@),
            r is Ok ==> trie_contents(final(self).path_router.node).dom().contains(path@) && (
            final(self).path_router.routes@.last().1.kind matches EndpointKind::Route(t) && t
                == svc),
            r is Err ==> final(self).path_router.routes == old(self).path_router.routes && final(self).path_router.paths == old(self).path_router.paths && trie_contents(
                final(self).path_router.node,
            ) == trie_contents(old(self).path_router.node) && final(self).path_router.prev_route_id
                == old(self).path_router.prev_route_id,
    {
        let owned: String = path.to_owned();
        self.path_router.route_service(&owned, svc)
    }

    /// Mounts every route of another router under a prefix; the nested
    /// router's fallback is dropped. A prefix with a wildcard is refused.
    pub fn nest(&mut self, path: &str, router: AppRouter<T>) -> (r: Result<(), RouterError>)
        requires
            old(self).wf(),
            router.wf(),
        ensures
            final(self).wf(),
            final(self).fallback == old(self).fallback,
            path@.contains('*') <==> r matches Err(RouterError::NestedWildcard),
            (path@.len() > 0 && path@[0] != '/' && !path@.contains('*')) <==> r matches Err(
                RouterError::InvalidPath,
            ),
            r is Ok ==> forall|p: Seq<char>|
                #[trigger] trie_contents(router.path_router.node).dom().contains(p)
                    ==> trie_contents(final(self).path_router.node).dom().contains(
                    spec_nested_path(
                        if path@.len() == 0 {
                            seq!['/']
                        } else {
                            path@
                        },
                        p,
                    ),
                ),
            r is Ok ==> {
                let pfx = if path@.len() == 0 {
                    seq!['/']
                } else {
                    path@
                };
                forall|p: Seq<char>, ep: Endpoint<T>|
                    ({
                        &&& #[trigger] spec_has_route(router.path_router, p, ep)
                        &&& !trie_contents(old(self).path_router.node).dom().contains(
                            spec_nested_path(pfx, p),
                        )
                        &&& forall|p2: Seq<char>|
                            #[trigger] trie_contents(router.path_router.node).dom().contains(p2)
                                && p2 != p ==> spec_nested_path(pfx, p2) != spec_nested_path(
                                pfx,
                                p,
                            )
                    }) ==> spec_nested_route(final(self).path_router, pfx, p, ep)
            },
            r matches Err(e) ==> match e {
                RouterError::RouteIdExhausted => final(self).path_router.prev_route_id
                    == u32::MAX,
                RouterError::TooManyParameters => exists|p: Seq<char>|
                    #[trigger] trie_contents(router.path_router.node).dom().contains(p)
                        && crate::text::spec_count_char(
                        spec_nested_path(
                            if path@.len() == 0 {
                                seq!['/']
                            } else {
                                path@
                            },
                            p,
                        ),
                        ':',
                    ) > crate::trie::MAX_PATTERN_PARAMS,
                RouterError::Pattern(_) => exists|p: Seq<char>|
                    #[trigger] trie_contents(router.path_router.node).dom().contains(p) && (
                    !crate::trie::trie_accepts(
                        final(self).path_router.node,
                        spec_nested_path(
                            if path@.len() == 0 {
                                seq!['/']
                            } else {
                                path@
                            },
                            p,
                        ),
                    ) || crate::path_router::spec_plain_occupant(
                        final(self).path_router,
                        spec_nested_path(
                            if path@.len() == 0 {
                                seq!['/']
                            } else {
                                path@
                            },
                            p,
                        ),
                    )),
                RouterError::Method(me) => (match me {
                    crate::method_routing::MethodRouterError::OverlappingMethodRoute {
                        method: _,
                        path: p,
                    } => p,
                    crate::method_routing::MethodRouterError::OverlappingFallback { path: p } => p,
                }) matches Some(pp) && exists|p: Seq<char>|
                    #[trigger] trie_contents(router.path_router.node).dom().contains(p) && pp@
                        == spec_nested_path(
                        if path@.len() == 0 {
                            seq!['/']
                        } else {
                            path@
                        },
                        p,
                    ),
                _ => true,
            },
    {
        let owned: String = path.to_owned();
        let prefix = match validate_nest_path(&owned) {
            Ok(p) => p,
            Err(e) => {
                return Err(e);
            }
        };
        if prefix.as_str().get_char(0) != '/' {
            return Err(RouterError::InvalidPath);
        }
        let AppRouter { path_router: inner, fallback: _ } = router;
        self.path_router.nest(&prefix, inner)
    }

    /// Mounts one service under a prefix.
    pub fn nest_service(&mut self, path: &str, svc: T) -> (r: Result<(), RouterError>)
        requires
            old(self).wf(),
            path@.len() > 0,
            path@[0] == '/',
        ensures
            final(self).wf(),
            final(self).fallback == old(self).fallback,
            path@.contains('*') <==> r matches Err(RouterError::NestedWildcard),
            r is Ok ==> {
                &&& spec_serves(final(self).path_router, spec_nest_wild(path@), svc, path@)
                &&& spec_serves(final(self).path_router, path@, svc, path@)
                &&& (path@.last() != '/' ==> spec_serves(
                    final(self).path_router,
                    path@ + seq!['/'],
                    svc,
                    path@,
                ))
            },
    {
        let owned: String = path.to_owned();
        let prefix = match validate_nest_path(&owned) {
            Ok(p) => p,
            Err(e) => {
                return Err(e);
            }
        };
        proof {
            assert(prefix@ == path@);
        }
        self.path_router.nest_service(&prefix, svc)
    }

    /// Unions another router's routes into this one; the other router's
    /// fallback, where set, replaces this one's.
    pub fn merge(&mut self, other: AppRouter<T>) -> (r: Result<(), RouterError>)
        requires
            old(self).wf(),
            other.wf(),
        ensures
            final(self).wf(),
            r is Ok ==> crate::path_router::spec_scan_clear(
                old(self).path_router,
                other.path_router,
                other.path_router.routes@.len() as int,
            ),
            match r {
                Ok(()) => {
                    &&& forall|p: Seq<char>|
                        #[trigger] trie_contents(old(self).path_router.node).dom().contains(p)
                            ==> trie_contents(final(self).path_router.node).dom().contains(p)
                    &&& forall|p: Seq<char>|
                        #[trigger] trie_contents(other.path_router.node).dom().contains(p)
                            ==> trie_contents(final(self).path_router.node).dom().contains(p)
                    &&& forall|p: Seq<char>, ep: Endpoint<T>|
                        !trie_contents(other.path_router.node).dom().contains(p)
                            && #[trigger] spec_has_route(old(self).path_router, p, ep)
                            ==> spec_has_route(final(self).path_router, p, ep)
                    &&& forall|p: Seq<char>, ep: Endpoint<T>|
                        !trie_contents(old(self).path_router.node).dom().contains(p)
                            && #[trigger] spec_has_route(other.path_router, p, ep)
                            ==> spec_has_route(final(self).path_router, p, ep)
                },
                Err(e) => match e {
                    RouterError::Method(me) => {
                        &&& final(self).path_router.routes == old(self).path_router.routes
                        &&& final(self).path_router.paths == old(self).path_router.paths
                        &&& trie_contents(final(self).path_router.node) == trie_contents(
                            old(self).path_router.node,
                        )
                        &&& match me {
                            crate::method_routing::MethodRouterError::OverlappingMethodRoute {
                                method,
                                path: p,
                            } => p matches Some(pp)
                                && crate::path_router::spec_overlap_witness(
                                old(self).path_router,
                                other.path_router,
                                pp@,
                                method,
                            ),
                            crate::method_routing::MethodRouterError::OverlappingFallback {
                                path: p,
                            } => p matches Some(pp)
                                && crate::path_router::spec_fallback_overlap_witness(
                                old(self).path_router,
                                other.path_router,
                                pp@,
                            ),
                        }
                    },
                    RouterError::RouteIdExhausted => final(self).path_router.prev_route_id
                        == u32::MAX,
                    RouterError::Pattern(_) => (exists|pt: Seq<char>|
                        #[trigger] crate::path_router::spec_kind_mismatch_at(
                            old(self).path_router,
                            other.path_router,
                            pt,
                        )) || (exists|p: Seq<char>|
                        #[trigger] trie_contents(other.path_router.node).dom().contains(p)
                            && !crate::trie::trie_accepts(final(self).path_router.node, p)),
                    RouterError::TooManyParameters => exists|p: Seq<char>|
                        #[trigger] trie_contents(other.path_router.node).dom().contains(p)
                            && crate::text::spec_count_char(p, ':')
                            > crate::trie::MAX_PATTERN_PARAMS,
                    _ => true,
                },
            },
    {
        let AppRouter { path_router: inner, fallback } = other;
        match self.path_router.merge(inner) {
            Ok(()) => {
                match fallback {
                    Some(f) => {
                        self.fallback = Some(f);
                    }
                    None => {}
                }
                Ok(())
            }
            Err(e) => Err(e),
        }
    }
}

impl AppRouter<Response> {
    /// Runs a whole dispatch for a router whose services are fixed
    /// responses: the response the dispatch selected or built, finalized.
    pub fn respond(&self, req: Request) -> (r: Response)
        requires
            self.wf(),
        ensures
            exists|fut: RouteFuture<&Response>|
                {
                    &&& #[trigger] spec_router_dispatch(*self, req, fut)
                    &&& ({
                        let inner = match fut.kind {
                            RouteFutureKind::Future { service, .. } => *service,
                            RouteFutureKind::Ready { response } => response,
                        };
                        r.status == inner.status && r.headers@
                            == crate::route::spec_finalized_headers(
                            inner.headers@,
                            inner.body@.len() as int,
                            fut.spec_allow(),
                        ) && r.body@ == crate::route::spec_finalized_body(inner.body@, fut.strip)
                    })
                },
    {
        let fut = self.call_with_state(req);
        let ghost chosen = fut;
        let r = fut.into_response();
        proof {
            assert(spec_router_dispatch(*self, req, chosen));
        }
        r
    }
}


impl<T> AppRouter<T> {
    /// Wraps every registered endpoint, and the fallback where set, in a
    /// middleware transform: patterns and identifiers are untouched, and
    /// each service is replaced by the transform's output.
    pub fn layer<T2, F: Fn(T) -> T2>(self, f: &F) -> (r: AppRouter<T2>)
        requires
            self.wf(),
            forall|t: T| #[trigger] f.requires((t,)),
        ensures
            r.wf(),
            trie_contents(r.path_router.node) == trie_contents(self.path_router.node),
            r.path_router.paths == self.path_router.paths,
            r.path_router.routes@.len() == self.path_router.routes@.len(),
            forall|j: int|
                0 <= j < self.path_router.routes@.len() ==> (#[trigger] r.path_router.routes@[j]).0
                    == self.path_router.routes@[j].0 && crate::path_router::spec_endpoint_layered(
                    self.path_router.routes@[j].1,
                    r.path_router.routes@[j].1,
                    *f,
                ),
            match (self.fallback, r.fallback) {
                (Some(a), Some(b)) => f.ensures((a,), b),
                (None, None) => true,
                _ => false,
            },
    {
        let AppRouter { path_router, fallback } = self;
        let fallback = match fallback {
            Some(t) => Some(f(t)),
            None => None,
        };
        AppRouter { path_router: path_router.layer(f), fallback }
    }

    /// As [`AppRouter::layer`], but only for routes that already exist:
    /// the fallback is untouched, and applying it to an empty router is
    /// refused as a configuration error.
    pub fn route_layer<F: Fn(T) -> T>(self, f: &F) -> (r: Result<AppRouter<T>, RouterError>)
        requires
            self.wf(),
            forall|t: T| #[trigger] f.requires((t,)),
        ensures
            self.path_router.routes@.len() == 0 <==> (r matches Err(
                RouterError::RouteLayerBeforeRoutes,
            )),
            match r {
                Ok(out) => {
                    &&& out.wf()
                    &&& trie_contents(out.path_router.node) == trie_contents(self.path_router.node)
                    &&& out.path_router.paths == self.path_router.paths
                    &&& out.path_router.routes@.len() == self.path_router.routes@.len()
                    &&& forall|j: int|
                        0 <= j < self.path_router.routes@.len() ==> (
                        #[trigger] out.path_router.routes@[j]).0 == self.path_router.routes@[j].0
                            && crate::path_router::spec_endpoint_layered(
                            self.path_router.routes@[j].1,
                            out.path_router.routes@[j].1,
                            *f,
                        )
                    &&& out.fallback == self.fallback
                },
                Err(e) => e is RouteLayerBeforeRoutes,
            },
    {
        if self.path_router.routes.len() == 0 {
            return Err(RouterError::RouteLayerBeforeRoutes);
        }
        let AppRouter { path_router, fallback } = self;
        Ok(AppRouter { path_router: path_router.layer(f), fallback })
    }
}

} // verus!

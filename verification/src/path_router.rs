//! The endpoint registry: the path trie plus, per route identifier, the
//! registered pattern and the endpoint that serves it.

use vstd::prelude::*;
use vstd::pervasive::cloned;
use crate::matched_path::set_matched_path_for_request;
use crate::method_routing::{MethodRouter, MethodRouterError, spec_merged, spec_overlaps};
use crate::request::Request;
use crate::route::RouteFuture;
use crate::strip_prefix::{spec_strip_prefix, strip_prefix};
use crate::trie::{trie_contents, trie_accepts, trie_resolves, trie_captures, trie_new, trie_insert, trie_at, TrieInsertError, TrieMatch, MAX_PATTERN_PARAMS};
use crate::text::{chars_of, chars_contain, chars_extend, string_of, count_char, spec_count_char};
use vstd::string::StrSliceExecFns;
use crate::url_params::{insert_url_params, spec_params_after};

verus! {

/// A configuration error reported while routes are being registered.
#[derive(Debug)]
pub enum RouterError {
    /// The pattern is empty or does not start with `/`.
    InvalidPath,
    /// The trie refused the pattern.
    Pattern(TrieInsertError),
    /// A verb or fallback clash inside one path's method table.
    Method(MethodRouterError),
    /// A nest prefix holds a wildcard.
    NestedWildcard,
    /// A pattern holds more named parameters than the trie supports.
    TooManyParameters,
    /// Every route identifier has been handed out.
    RouteIdExhausted,
    /// A route layer was applied before any route existed.
    RouteLayerBeforeRoutes,
}

/// What serves one registered pattern.
pub enum EndpointKind<T> {
    /// Dispatch further by verb.
    MethodRouter(MethodRouter<T>),
    /// One service for every verb.
    Route(T),
}

/// An endpoint together with the mount prefixes that must be stripped from
/// the request path before the endpoint runs, outermost first.
#[verifier::ext_equal]
pub struct Endpoint<T> {
    pub kind: EndpointKind<T>,
    pub strips: Vec<String>,
}

/// Whether a pattern is registered in a registry's trie.
pub open spec fn spec_has_pattern<T>(r: PathRouter<T>, p: Seq<char>) -> bool {
    trie_contents(r.node).dom().contains(p)
}

/// Whether an identifier occurs in an association list.
pub open spec fn spec_ids_has<X>(s: Seq<(u32, X)>, id: u32) -> bool {
    exists|i: int| 0 <= i < s.len() && (#[trigger] s[i]).0 == id
}

/// Whether the identifiers of an association list are distinct.
pub open spec fn spec_ids_distinct<X>(s: Seq<(u32, X)>) -> bool {
    forall|i: int, j: int| 0 <= i < j < s.len() ==> (#[trigger] s[i]).0 != (#[trigger] s[j]).0
}

/// Whether a registry serves a pattern with exactly this endpoint.
pub open spec fn spec_has_route<T>(r: PathRouter<T>, p: Seq<char>, ep: Endpoint<T>) -> bool {
    &&& trie_contents(r.node).dom().contains(p)
    &&& exists|j: int|
        0 <= j < r.routes@.len() && (#[trigger] r.routes@[j]).0 == trie_contents(r.node)[p]
            && r.routes@[j].1 == ep
}

/// When registering a fresh pattern must succeed: the pattern is rooted,
/// an identifier is left, the parameter count fits the trie, and the trie
/// accepts the pattern.
pub open spec fn spec_insert_ok<T>(r: PathRouter<T>, p: Seq<char>) -> bool {
    &&& p.len() > 0 && p[0] == '/'
    &&& r.prev_route_id < u32::MAX
    &&& spec_count_char(p, ':') <= MAX_PATTERN_PARAMS
    &&& trie_accepts(r.node, p)
}

/// The registry: the trie, the pattern of each route identifier, the
/// endpoint of each route identifier, and the last identifier handed out.
pub struct PathRouter<T> {
    /// The path trie, mapping request paths to route identifiers.
    pub node: matchit::Router<u32>,
    /// The registered pattern of each route identifier.
    pub paths: Vec<(u32, String)>,
    /// The endpoint of each route identifier.
    pub routes: Vec<(u32, Endpoint<T>)>,
    /// The last identifier handed out; identifiers are never reused.
    pub prev_route_id: u32,
}

impl<T> PathRouter<T> {
    /// The registered patterns and their identifiers.
    pub open spec fn spec_patterns(self) -> Map<Seq<char>, u32> {
        trie_contents(self.node)
    }

    /// The trie and the pattern list agree, identifiers and patterns are
    /// unique, and no identifier exceeds the last one handed out.
    pub open spec fn wf_node(self) -> bool {
        &&& spec_ids_distinct(self.paths@)
        &&& forall|i: int|
            0 <= i < self.paths@.len() ==> (#[trigger] self.paths@[i]).1@.len() > 0
                && self.paths@[i].1@[0] == '/' 
        &&& forall|i: int, j: int|
            0 <= i < j < self.paths@.len() ==> (#[trigger] self.paths@[i]).1@ != (
            #[trigger] self.paths@[j]).1@
        &&& forall|i: int|
            0 <= i < self.paths@.len() ==> 1 <= (#[trigger] self.paths@[i]).0
                <= self.prev_route_id
        &&& forall|i: int|
            0 <= i < self.paths@.len() ==> trie_contents(self.node).contains_pair(
                (#[trigger] self.paths@[i]).1@,
                self.paths@[i].0,
            )
        &&& forall|p: Seq<char>|
            #[trigger] trie_contents(self.node).dom().contains(p) ==> exists|i: int|
                0 <= i < self.paths@.len() && (#[trigger] self.paths@[i]).1@ == p
                    && self.paths@[i].0 == trie_contents(self.node)[p]
    }

    /// The full registry invariant: the pattern list and the endpoint list
    /// name the same identifiers, each once.
    pub open spec fn wf(self) -> bool {
        &&& self.wf_node()
        &&& spec_ids_distinct(self.routes@)
        &&& forall|i: int|
            0 <= i < self.paths@.len() ==> spec_ids_has(
                self.routes@,
                (#[trigger] self.paths@[i]).0,
            )
        &&& forall|j: int|
            0 <= j < self.routes@.len() ==> spec_ids_has(
                self.paths@,
                (#[trigger] self.routes@[j]).0,
            )
    }

    /// An empty registry.
    pub fn new() -> (r: Self)
        ensures
            r.wf(),
            r.spec_patterns() == Map::<Seq<char>, u32>::empty(),
            r.routes@.len() == 0,
            r.paths@.len() == 0,
            r.prev_route_id == 0,
    {
        PathRouter { node: trie_new(), paths: Vec::new(), routes: Vec::new(), prev_route_id: 0 }
    }

    /// The position of an identifier's endpoint.
    fn find_route_index(&self, id: u32) -> (r: Option<usize>)
        ensures
            match r {
                Some(j) => j < self.routes@.len() && self.routes@[j as int].0 == id,
                None => !spec_ids_has(self.routes@, id),
            },
    {
        let mut j: usize = 0;
        while j < self.routes.len()
            invariant
                0 <= j <= self.routes@.len(),
                forall|i: int| 0 <= i < j ==> (#[trigger] self.routes@[i]).0 != id,
            decreases self.routes@.len() - j,
        {
            if self.routes[j].0 == id {
                return Some(j);
            }
            j = j + 1;
        }
        None
    }

    /// The registered pattern of an identifier.
    fn find_path(&self, id: u32) -> (r: Option<&String>)
        ensures
            match r {
                Some(p) => exists|i: int|
                    0 <= i < self.paths@.len() && (#[trigger] self.paths@[i]).0 == id
                        && self.paths@[i].1@ == p@,
                None => !spec_ids_has(self.paths@, id),
            },
    {
        let mut j: usize = 0;
        while j < self.paths.len()
            invariant
                0 <= j <= self.paths@.len(),
                forall|i: int| 0 <= i < j ==> (#[trigger] self.paths@[i]).0 != id,
            decreases self.paths@.len() - j,
        {
            if self.paths[j].0 == id {
                return Some(&self.paths[j].1);
            }
            j = j + 1;
        }
        None
    }

    /// The identifier registered for exactly this pattern, if any.
    fn find_id_of_path(&self, path: &String) -> (r: Option<u32>)
        ensures
            match r {
                Some(id) => exists|i: int|
                    0 <= i < self.paths@.len() && (#[trigger] self.paths@[i]).0 == id
                        && self.paths@[i].1@ == path@,
                None => forall|i: int|
                    0 <= i < self.paths@.len() ==> (#[trigger] self.paths@[i]).1@ != path@,
            },
    {
        let mut j: usize = 0;
        while j < self.paths.len()
            invariant
                0 <= j <= self.paths@.len(),
                forall|i: int| 0 <= i < j ==> (#[trigger] self.paths@[i]).1@ != path@,
            decreases self.paths@.len() - j,
        {
            if self.paths[j].1 == *path {
                return Some(self.paths[j].0);
            }
            j = j + 1;
        }
        None
    }

    /// Hands out the next route identifier.
    fn next_route_id(&mut self) -> (r: Result<u32, RouterError>)
        ensures
            final(self).node == old(self).node,
            final(self).paths == old(self).paths,
            final(self).routes == old(self).routes,
            match r {
                Ok(id) => id == old(self).prev_route_id + 1 && final(self).prev_route_id == id,
                Err(e) => e is RouteIdExhausted && old(self).prev_route_id == u32::MAX && final(self).prev_route_id == old(self).prev_route_id,
            },
    {
        if self.prev_route_id == u32::MAX {
            return Err(RouterError::RouteIdExhausted);
        }
        self.prev_route_id = self.prev_route_id + 1;
        Ok(self.prev_route_id)
    }

    /// Registers a pattern in the trie under a fresh identifier. Succeeds
    /// exactly when the pattern's parameter count fits the trie and the
    /// trie accepts the pattern; on failure nothing changes.
    fn set_node(&mut self, path: &String, id: u32) -> (r: Result<(), RouterError>)
        requires
            old(self).wf_node(),
            !spec_ids_has(old(self).paths@, id),
            1 <= id <= old(self).prev_route_id,
            path@.len() > 0,
            path@[0] == '/',
        ensures
            final(self).routes == old(self).routes,
            final(self).prev_route_id == old(self).prev_route_id,
            final(self).wf_node(),
            r is Ok <==> (spec_count_char(path@, ':') <= MAX_PATTERN_PARAMS && trie_accepts(
                old(self).node,
                path@,
            )),
            match r {
                Ok(()) => {
                    &&& trie_contents(final(self).node) == trie_contents(old(self).node).insert(
                        path@,
                        id,
                    )
                    &&& final(self).paths@.len() == old(self).paths@.len() + 1
                    &&& final(self).paths@[old(self).paths@.len() as int].0 == id
                    &&& final(self).paths@[old(self).paths@.len() as int].1@ == path@
                    &&& forall|i: int|
                        0 <= i < old(self).paths@.len() ==> final(self).paths@[i] == old(self).paths@[i]
                    &&& !trie_contents(old(self).node).dom().contains(path@)
                },
                Err(e) => {
                    &&& trie_contents(final(self).node) == trie_contents(old(self).node)
                    &&& final(self).paths == old(self).paths
                    &&& match e {
                        RouterError::TooManyParameters => spec_count_char(path@, ':')
                            > MAX_PATTERN_PARAMS,
                        RouterError::Pattern(_) => spec_count_char(path@, ':')
                            <= MAX_PATTERN_PARAMS && !trie_accepts(old(self).node, path@)
                            && !trie_accepts(final(self).node, path@),
                        _ => false,
                    }
                },
            },
    {
        let chars = chars_of(path.as_str());
        let n = chars.len();
        if count_char(&chars, ':') > MAX_PATTERN_PARAMS {
            return Err(RouterError::TooManyParameters);
        }
        let ghost old_paths = self.paths@;
        match trie_insert(&mut self.node, path, id) {
            Ok(()) => {
                proof {
                    if trie_contents(old(self).node).dom().contains(path@) {
                        // the trie refuses a pattern it already holds
                        assert(false);
                    }
                }
                self.paths.push((id, path.clone()));
                proof {
                    let c = trie_contents(self.node);
                    let oldc = trie_contents(old(self).node);
                    let n = old_paths.len() as int;
                    assert forall|i: int|
                        0 <= i < self.paths@.len() implies trie_contents(
                        self.node,
                    ).contains_pair((#[trigger] self.paths@[i]).1@, self.paths@[i].0) by {
                        if i < n {
                            assert(oldc.contains_pair(old_paths[i].1@, old_paths[i].0));
                            assert(old_paths[i].1@ != path@);
                        }
                    }
                    assert forall|i: int, j: int|
                        0 <= i < j < self.paths@.len() implies (#[trigger] self.paths@[i]).1@ != (
                    #[trigger] self.paths@[j]).1@ by {
                        if j == n {
                            assert(oldc.contains_pair(old_paths[i].1@, old_paths[i].0));
                            assert(oldc.dom().contains(old_paths[i].1@));
                        }
                    }
                    assert forall|p: Seq<char>| #[trigger] c.dom().contains(p) implies exists|i: int|
                        0 <= i < self.paths@.len() && (#[trigger] self.paths@[i]).1@ == p
                            && self.paths@[i].0 == c[p] by {
                        if p == path@ {
                            assert(self.paths@[n].1@ == p);
                            assert(self.paths@[n].0 == c[p]);
                        } else {
                            assert(oldc.dom().contains(p));
                            let i = choose|i: int|
                                0 <= i < old_paths.len() && (#[trigger] old_paths[i]).1@ == p
                                    && old_paths[i].0 == oldc[p];
                            assert(self.paths@[i].1@ == p);
                            assert(c[p] == oldc[p]);
                        }
                    }
                    assert(self.paths@[n].1@ == path@);
                    assert(spec_ids_distinct(self.paths@));
                    assert(forall|i: int|
                        0 <= i < self.paths@.len() ==> 1 <= (#[trigger] self.paths@[i]).0
                            <= self.prev_route_id);
                    assert(self.wf_node());
                }
                Ok(())
            }
            Err(e) => Err(RouterError::Pattern(e)),
        }
    }

    /// Registers an endpoint at a pattern that must be new. Succeeds
    /// exactly when the pattern is rooted, an identifier is left, and the
    /// trie takes the pattern; any failure leaves the registry exactly as
    /// it was.
    pub fn route_endpoint(&mut self, path: &String, endpoint: Endpoint<T>) -> (r: Result<
        (),
        RouterError,
    >)
        requires
            old(self).wf(),
        ensures
            final(self).wf(),
            r is Ok <==> spec_insert_ok(*old(self), path@),
            match r {
                Ok(()) => {
                    &&& !trie_contents(old(self).node).dom().contains(path@)
                    &&& final(self).prev_route_id == old(self).prev_route_id + 1
                    &&& trie_contents(final(self).node) == trie_contents(old(self).node).insert(
                        path@,
                        final(self).prev_route_id,
                    )
                    &&& final(self).routes@.len() == old(self).routes@.len() + 1
                    &&& forall|i: int|
                        0 <= i < old(self).routes@.len() ==> final(self).routes@[i] == old(self).routes@[i]
                    &&& final(self).routes@[old(self).routes@.len() as int].0 == final(self).prev_route_id
                    &&& final(self).routes@[old(self).routes@.len() as int].1 == endpoint
                    &&& forall|p: Seq<char>, ep: Endpoint<T>|
                        p != path@ && #[trigger] spec_has_route(*old(self), p, ep)
                            ==> spec_has_route(*final(self), p, ep)
                },
                Err(e) => {
                    &&& final(self).routes == old(self).routes
                    &&& final(self).paths == old(self).paths
                    &&& trie_contents(final(self).node) == trie_contents(old(self).node)
                    &&& final(self).prev_route_id == old(self).prev_route_id
                    &&& match e {
                        RouterError::InvalidPath => path@.len() == 0 || path@[0] != '/',
                        RouterError::RouteIdExhausted => old(self).prev_route_id == u32::MAX,
                        RouterError::TooManyParameters => spec_count_char(path@, ':')
                            > MAX_PATTERN_PARAMS,
                        RouterError::Pattern(_) => !trie_accepts(old(self).node, path@)
                            && !trie_accepts(final(self).node, path@),
                        _ => false,
                    }
                },
            },
            (path@.len() == 0 || path@[0] != '/') <==> r matches Err(RouterError::InvalidPath),
    {
        if path.as_str().is_empty() {
            return Err(RouterError::InvalidPath);
        }
        if path.as_str().get_char(0) != '/' {
            return Err(RouterError::InvalidPath);
        }
        if self.prev_route_id == u32::MAX {
            return Err(RouterError::RouteIdExhausted);
        }
        let prev0: u32 = self.prev_route_id;
        let id = self.prev_route_id + 1;
        self.prev_route_id = id;
        proof {
            if spec_ids_has(self.paths@, id) {
                let i = choose|i: int|
                    0 <= i < self.paths@.len() && (#[trigger] self.paths@[i]).0 == id;
                assert(self.paths@[i].0 <= prev0);
                assert(false);
            }
        }
        let ghost mid = *self;
        match self.set_node(path, id) {
            Ok(()) => {}
            Err(e) => {
                self.prev_route_id = prev0;
                return Err(e);
            }
        }
        let ghost old_routes = self.routes@;
        self.routes.push((id, endpoint));
        proof {
            assert forall|i: int|
                0 <= i < self.paths@.len() implies spec_ids_has(
                self.routes@,
                (#[trigger] self.paths@[i]).0,
            ) by {
                if i < self.paths@.len() - 1 {
                    assert(spec_ids_has(old_routes, self.paths@[i].0));
                    let j = choose|j: int|
                        0 <= j < old_routes.len() && (#[trigger] old_routes[j]).0
                            == self.paths@[i].0;
                    assert(self.routes@[j].0 == self.paths@[i].0);
                } else {
                    assert(self.routes@[old_routes.len() as int].0 == id);
                }
            }
            assert forall|j: int|
                0 <= j < self.routes@.len() implies spec_ids_has(
                self.paths@,
                (#[trigger] self.routes@[j]).0,
            ) by {
                if j < self.routes@.len() - 1 {
                    assert(spec_ids_has(old(self).paths@, old_routes[j].0));
                    let i = choose|i: int|
                        0 <= i < old(self).paths@.len() && (#[trigger] old(self).paths@[i]).0
                            == old_routes[j].0;
                    assert(self.paths@[i].0 == self.routes@[j].0);
                } else {
                    assert(self.paths@[self.paths@.len() - 1].0 == id);
                }
            }
            if spec_ids_has(old_routes, id) {
                let j = choose|j: int|
                    0 <= j < old_routes.len() && (#[trigger] old_routes[j]).0 == id;
                assert(spec_ids_has(old(self).paths@, id));
                let i = choose|i: int|
                    0 <= i < old(self).paths@.len() && (#[trigger] old(self).paths@[i]).0 == id;
                assert(old(self).paths@[i].0 <= prev0);
                assert(false);
            }
            let oldc = trie_contents(old(self).node);
            let c = trie_contents(self.node);
            assert forall|p: Seq<char>, ep: Endpoint<T>|
                p != path@ && #[trigger] spec_has_route(*old(self), p, ep) implies spec_has_route(
                *self,
                p,
                ep,
            ) by {
                assert(c.dom().contains(p));
                assert(c[p] == oldc[p]);
                let j = choose|j: int|
                    0 <= j < old(self).routes@.len() && (#[trigger] old(self).routes@[j]).0
                        == oldc[p] && old(self).routes@[j].1 == ep;
                assert(self.routes@[j] == old(self).routes@[j]);
            }
        }
        Ok(())
    }

    /// Registers one service for every verb at a pattern.
    pub fn route_service(&mut self, path: &String, svc: T) -> (r: Result<(), RouterError>)
        requires
            old(self).wf(),
        ensures
            final(self).wf(),
            r is Ok <==> spec_insert_ok(*old(self), path@),
            r is Ok ==> {
                &&& !trie_contents(old(self).node).dom().contains(path@)
                &&& trie_contents(final(self).node) == trie_contents(old(self).node).insert(
                    path@,
                    final(self).prev_route_id,
                )
                &&& final(self).routes@.len() == old(self).routes@.len() + 1
                &&& final(self).routes@[old(self).routes@.len() as int].0 == final(self).prev_route_id
                &&& final(self).routes@[old(self).routes@.len() as int].1.kind matches EndpointKind::Route(t) && t == svc
                &&& final(self).routes@[old(self).routes@.len() as int].1.strips@.len() == 0
                &&& forall|p: Seq<char>, ep: Endpoint<T>|
                    p != path@ && #[trigger] spec_has_route(*old(self), p, ep) ==> spec_has_route(
                        *final(self),
                        p,
                        ep,
                    )
            },
            r is Err ==> final(self).routes == old(self).routes && final(self).paths == old(self).paths && trie_contents(final(self).node) == trie_contents(old(self).node) && final(self).prev_route_id == old(self).prev_route_id,
    {
        self.route_endpoint(path, Endpoint { kind: EndpointKind::Route(svc), strips: Vec::new() })
    }
}


/// The views of a vector of strings.
pub open spec fn strs_view(v: Seq<String>) -> Seq<Seq<char>> {
    Seq::new(v.len(), |i: int| v[i]@)
}

/// A sequence without its leading slashes.
pub open spec fn spec_trim_slashes(s: Seq<char>) -> Seq<char>
    decreases s.len(),
{
    if s.len() > 0 && s[0] == '/' {
        spec_trim_slashes(s.drop_first())
    } else {
        s
    }
}

/// The pattern of a nested route: the prefix and the inner pattern joined
/// without doubling the slash between them; mounting the inner root path
/// keeps the prefix alone.
pub open spec fn spec_nested_path(prefix: Seq<char>, path: Seq<char>) -> Seq<char> {
    if prefix.len() > 0 && prefix.last() == '/' {
        prefix + spec_trim_slashes(path)
    } else if path == seq!['/'] {
        prefix
    } else {
        prefix + path
    }
}

/// Joins a mount prefix and an inner pattern.
pub fn path_for_nested_route(prefix: &String, path: &String) -> (r: String)
    ensures
        r@ == spec_nested_path(prefix@, path@),
{
    let pc = chars_of(prefix.as_str());
    let xc = chars_of(path.as_str());
    if pc.len() > 0 && pc[pc.len() - 1] == '/' {
        proof {
            assert(prefix@.last() == '/');
        }
        let mut out = pc;
        let mut i: usize = 0;
        let ghost xv = xc@;
        proof {
            assert(xv.skip(0) =~= xv);
        }
        while i < xc.len() && xc[i] == '/'
            invariant
                0 <= i <= xc@.len(),
                xv == xc@,
                spec_trim_slashes(xv) == spec_trim_slashes(xv.skip(i as int)),
                forall|j: int| 0 <= j < i ==> xv[j] == '/',
            decreases xc@.len() - i,
        {
            proof {
                assert(xv.skip(i as int)[0] == '/');
                assert(xv.skip(i as int).drop_first() =~= xv.skip(i as int + 1));
            }
            i = i + 1;
        }
        proof {
            if i < xc@.len() {
                assert(spec_trim_slashes(xv.skip(i as int)) == xv.skip(i as int));
            } else {
                assert(xv.skip(i as int) =~= Seq::<char>::empty());
            }
        }
        let ghost out_before = out@;
        let mut j: usize = i;
        while j < xc.len()
            invariant
                i <= j <= xc@.len(),
                xv == xc@,
                out@ == out_before + xv.subrange(i as int, j as int),
            decreases xc@.len() - j,
        {
            out.push(xc[j]);
            proof {
                assert(out@ =~= out_before + xv.subrange(i as int, j as int + 1));
            }
            j = j + 1;
        }
        proof {
            assert(xv.subrange(i as int, xv.len() as int) =~= xv.skip(i as int));
            assert(out@ =~= prefix@ + spec_trim_slashes(path@));
        }
        string_of(&out)
    } else if xc.len() == 1 && xc[0] == '/' {
        proof {
            assert(path@ =~= seq!['/']);
        }
        prefix.clone()
    } else {
        let mut out = pc;
        chars_extend(&mut out, &xc);
        proof {
            assert(path@ != seq!['/']);
        }
        string_of(&out)
    }
}

/// Checks a mount prefix: an empty one stands for the root, and no
/// wildcard may occur in it.
pub fn validate_nest_path(path: &String) -> (r: Result<String, RouterError>)
    ensures
        match r {
            Ok(p) => p@ == (if path@.len() == 0 {
                seq!['/']
            } else {
                path@
            }) && !path@.contains('*'),
            Err(e) => e is NestedWildcard && path@.contains('*'),
        },
{
    let xc = chars_of(path.as_str());
    if xc.len() == 0 {
        let root: String = "/".to_owned();
        proof {
            reveal_strlit("/");
            assert(root@ =~= seq!['/']);
        }
        return Ok(root);
    }
    if chars_contain(&xc, '*') {
        return Err(RouterError::NestedWildcard);
    }
    Ok(path.clone())
}

/// The registered pattern of an identifier, in a bare pattern list.
fn find_path_in(paths: &Vec<(u32, String)>, id: u32) -> (r: Option<&String>)
    ensures
        match r {
            Some(p) => exists|i: int|
                0 <= i < paths@.len() && (#[trigger] paths@[i]).0 == id && paths@[i].1@ == p@,
            None => !spec_ids_has(paths@, id),
        },
{
    let mut j: usize = 0;
    while j < paths.len()
        invariant
            0 <= j <= paths@.len(),
            forall|i: int| 0 <= i < j ==> (#[trigger] paths@[i]).0 != id,
        decreases paths@.len() - j,
    {
        if paths[j].0 == id {
            return Some(&paths[j].1);
        }
        j = j + 1;
    }
    None
}

/// Whether `out` is what registering `new_mr` at `path` must produce: the
/// new table alone at a fresh pattern, or the old and new tables combined
/// where the pattern already had a method table.
pub open spec fn spec_route_outcome<T>(
    old_r: PathRouter<T>,
    path: Seq<char>,
    new_mr: MethodRouter<T>,
    out: MethodRouter<T>,
) -> bool {
    if trie_contents(old_r.node).dom().contains(path) {
        exists|j: int|
            0 <= j < old_r.routes@.len() && (#[trigger] old_r.routes@[j]).0 == trie_contents(
                old_r.node,
            )[path] && match old_r.routes@[j].1.kind {
                EndpointKind::MethodRouter(mr0) => spec_merged(mr0, new_mr, out),
                EndpointKind::Route(_) => false,
            }
    } else {
        out == new_mr
    }
}

/// When registering a method table at a pattern must succeed: a rooted
/// pattern that either already carries a method table with no shared verb
/// or fallback, or is fresh and insertable.
pub open spec fn spec_route_ok<T>(old_r: PathRouter<T>, path: Seq<char>, mr: MethodRouter<T>) -> bool {
    &&& path.len() > 0 && path[0] == '/'
    &&& if trie_contents(old_r.node).dom().contains(path) {
        exists|j: int|
            0 <= j < old_r.routes@.len() && (#[trigger] old_r.routes@[j]).0 == trie_contents(
                old_r.node,
            )[path] && match old_r.routes@[j].1.kind {
                EndpointKind::MethodRouter(mr0) => !spec_overlaps(mr0, mr),
                EndpointKind::Route(_) => false,
            }
    } else {
        &&& old_r.prev_route_id < u32::MAX
        &&& spec_count_char(path, ':') <= MAX_PATTERN_PARAMS
        &&& trie_accepts(old_r.node, path)
    }
}

/// The tail-capture pattern a mounted service answers below its prefix.
pub open spec fn spec_nest_wild(prefix: Seq<char>) -> Seq<char> {
    if prefix.len() > 0 && prefix.last() == '/' {
        prefix + seq!['*'] + crate::url_params::NEST_TAIL_PARAM@
    } else {
        prefix + seq!['/', '*'] + crate::url_params::NEST_TAIL_PARAM@
    }
}

/// Whether a registry serves a pattern with (a clone of) the given
/// service, stripping the given mount prefix before it runs.
pub open spec fn spec_serves<T: Clone>(r: PathRouter<T>, pat: Seq<char>, svc: T, prefix: Seq<char>) -> bool {
    &&& trie_contents(r.node).dom().contains(pat)
    &&& exists|j: int|
        0 <= j < r.routes@.len() && (#[trigger] r.routes@[j]).0 == trie_contents(r.node)[pat] && (
        r.routes@[j].1.kind matches EndpointKind::Route(t) && cloned::<T>(svc, t)) && strs_view(
            r.routes@[j].1.strips@,
        ) == seq![prefix]
}

/// Whether the table registered at `path` in `old_r` overlaps `new_mr`.
pub open spec fn spec_route_conflict<T>(
    old_r: PathRouter<T>,
    path: Seq<char>,
    new_mr: MethodRouter<T>,
) -> bool {
    exists|j: int|
        0 <= j < old_r.routes@.len() && trie_contents(old_r.node).dom().contains(path) && (
        #[trigger] old_r.routes@[j]).0 == trie_contents(old_r.node)[path] && match old_r.routes@[j].1.kind {
            EndpointKind::MethodRouter(mr0) => spec_overlaps(mr0, new_mr),
            EndpointKind::Route(_) => false,
        }
}

impl<T: Clone> PathRouter<T> {
    /// Registers a method table at a pattern. A fresh pattern gets the
    /// table as its endpoint; a pattern that already carries a method
    /// table has the two combined, which fails on any verb registered in
    /// both. A pattern that carries a plain service is refused.
    pub fn route(&mut self, path: &String, method_router: MethodRouter<T>) -> (r: Result<
        (),
        RouterError,
    >)
        requires
            old(self).wf(),
        ensures
            final(self).wf(),
            r is Ok <==> spec_route_ok(*old(self), path@, method_router),
            (path@.len() == 0 || path@[0] != '/') <==> r matches Err(RouterError::InvalidPath),
            (spec_route_conflict(*old(self), path@, method_router) && path@.len() > 0 && path@[0]
                == '/') ==> r matches Err(RouterError::Method(_)),
            match r {
                Ok(()) => {
                    &&& trie_contents(final(self).node).dom().contains(path@)
                    &&& exists|j: int|
                        0 <= j < final(self).routes@.len() && (#[trigger] final(self).routes@[j]).0 == trie_contents(final(self).node)[path@] && match final(self).routes@[j].1.kind {
                            EndpointKind::MethodRouter(mr) => spec_route_outcome(
                                *old(self),
                                path@,
                                method_router,
                                mr,
                            ),
                            EndpointKind::Route(_) => false,
                        }
                    &&& forall|p: Seq<char>|
                        #[trigger] trie_contents(old(self).node).dom().contains(p)
                            ==> trie_contents(final(self).node).dom().contains(p)
                    &&& forall|p: Seq<char>, ep: Endpoint<T>|
                        p != path@ && #[trigger] spec_has_route(*old(self), p, ep)
                            ==> spec_has_route(*final(self), p, ep)
                    &&& (!trie_contents(old(self).node).dom().contains(path@) ==> {
                        &&& final(self).routes@.len() == old(self).routes@.len() + 1
                        &&& forall|i: int|
                            0 <= i < old(self).routes@.len() ==> final(self).routes@[i] == old(self).routes@[i]
                        &&& final(self).routes@[old(self).routes@.len() as int].1.strips@.len() == 0
                        &&& final(self).routes@[old(self).routes@.len() as int].0 == final(self).prev_route_id
                        &&& (final(self).routes@[old(self).routes@.len() as int].1.kind matches EndpointKind::MethodRouter(m) && m == method_router)
                        &&& trie_contents(final(self).node) == trie_contents(old(self).node).insert(path@, final(self).prev_route_id)
                    })
                    &&& (trie_contents(old(self).node).dom().contains(path@) ==> {
                        &&& trie_contents(final(self).node) == trie_contents(old(self).node)
                        &&& final(self).paths == old(self).paths
                        &&& final(self).prev_route_id == old(self).prev_route_id
                        &&& final(self).routes@.len() == old(self).routes@.len()
                        &&& forall|k: int|
                            0 <= k < old(self).routes@.len() ==> (#[trigger] final(self).routes@[k]).0 == old(self).routes@[k].0 && final(self).routes@[k].1.strips == old(self).routes@[k].1.strips && (final(self).routes@[k] == old(self).routes@[k] || old(self).routes@[k].0 == trie_contents(old(self).node)[path@])
                    })
                },
                Err(e) => {
                    &&& final(self).routes == old(self).routes
                    &&& final(self).paths == old(self).paths
                    &&& trie_contents(final(self).node) == trie_contents(old(self).node)
                    &&& final(self).prev_route_id == old(self).prev_route_id
                    &&& match e {
                        RouterError::InvalidPath => path@.len() == 0 || path@[0] != '/',
                        RouterError::Method(me) => spec_route_conflict(
                            *old(self),
                            path@,
                            method_router,
                        ) && match me {
                            MethodRouterError::OverlappingMethodRoute { method, path: p } => p matches
                                Some(pp) && pp@ == path@,
                            MethodRouterError::OverlappingFallback { path: p } => p matches Some(pp)
                                && pp@ == path@,
                        },
                        RouterError::Pattern(_) => (exists|j: int|
                            0 <= j < old(self).routes@.len() && (#[trigger] old(self).routes@[j]).0 == trie_contents(old(self).node)[path@] && trie_contents(old(self).node).dom().contains(path@) && old(self).routes@[j].1.kind is Route) || (
                        !trie_contents(old(self).node).dom().contains(path@) && !trie_accepts(
                            old(self).node,
                            path@,
                        ) && !trie_accepts(final(self).node, path@)),
                        RouterError::TooManyParameters => !trie_contents(
                            old(self).node,
                        ).dom().contains(path@) && spec_count_char(path@, ':')
                            > MAX_PATTERN_PARAMS,
                        RouterError::RouteIdExhausted => !trie_contents(
                            old(self).node,
                        ).dom().contains(path@) && old(self).prev_route_id == u32::MAX,
                        _ => false,
                    }
                },
            },
    {
        self.route_with_strips(path, method_router, Vec::new())
    }

    /// Registers a method table, recording mount prefixes to strip.
    fn route_with_strips(
        &mut self,
        path: &String,
        method_router: MethodRouter<T>,
        strips: Vec<String>,
    ) -> (r: Result<(), RouterError>)
        requires
            old(self).wf(),
        ensures
            final(self).wf(),
            r is Ok <==> spec_route_ok(*old(self), path@, method_router),
            (path@.len() == 0 || path@[0] != '/') <==> r matches Err(RouterError::InvalidPath),
            (spec_route_conflict(*old(self), path@, method_router) && path@.len() > 0 && path@[0]
                == '/') ==> r matches Err(RouterError::Method(_)),
            match r {
                Ok(()) => {
                    &&& trie_contents(final(self).node).dom().contains(path@)
                    &&& exists|j: int|
                        0 <= j < final(self).routes@.len() && (#[trigger] final(self).routes@[j]).0 == trie_contents(final(self).node)[path@] && match final(self).routes@[j].1.kind {
                            EndpointKind::MethodRouter(mr) => spec_route_outcome(
                                *old(self),
                                path@,
                                method_router,
                                mr,
                            ),
                            EndpointKind::Route(_) => false,
                        }
                    &&& forall|p: Seq<char>|
                        #[trigger] trie_contents(old(self).node).dom().contains(p)
                            ==> trie_contents(final(self).node).dom().contains(p)
                    &&& forall|p: Seq<char>, ep: Endpoint<T>|
                        p != path@ && #[trigger] spec_has_route(*old(self), p, ep)
                            ==> spec_has_route(*final(self), p, ep)
                    &&& (!trie_contents(old(self).node).dom().contains(path@) ==> {
                        &&& final(self).routes@.len() == old(self).routes@.len() + 1
                        &&& forall|i: int|
                            0 <= i < old(self).routes@.len() ==> final(self).routes@[i] == old(self).routes@[i]
                        &&& final(self).routes@[old(self).routes@.len() as int].1.strips == strips
                        &&& final(self).routes@[old(self).routes@.len() as int].0 == final(self).prev_route_id
                        &&& (final(self).routes@[old(self).routes@.len() as int].1.kind matches EndpointKind::MethodRouter(m) && m == method_router)
                        &&& trie_contents(final(self).node) == trie_contents(old(self).node).insert(path@, final(self).prev_route_id)
                    })
                    &&& (trie_contents(old(self).node).dom().contains(path@) ==> {
                        &&& trie_contents(final(self).node) == trie_contents(old(self).node)
                        &&& final(self).paths == old(self).paths
                        &&& final(self).prev_route_id == old(self).prev_route_id
                        &&& final(self).routes@.len() == old(self).routes@.len()
                        &&& forall|k: int|
                            0 <= k < old(self).routes@.len() ==> (#[trigger] final(self).routes@[k]).0 == old(self).routes@[k].0 && final(self).routes@[k].1.strips == old(self).routes@[k].1.strips && (final(self).routes@[k] == old(self).routes@[k] || old(self).routes@[k].0 == trie_contents(old(self).node)[path@])
                    })
                },
                Err(e) => {
                    &&& final(self).routes == old(self).routes
                    &&& final(self).paths == old(self).paths
                    &&& trie_contents(final(self).node) == trie_contents(old(self).node)
                    &&& final(self).prev_route_id == old(self).prev_route_id
                    &&& match e {
                        RouterError::InvalidPath => path@.len() == 0 || path@[0] != '/',
                        RouterError::Method(me) => spec_route_conflict(
                            *old(self),
                            path@,
                            method_router,
                        ) && match me {
                            MethodRouterError::OverlappingMethodRoute { method, path: p } => p matches
                                Some(pp) && pp@ == path@,
                            MethodRouterError::OverlappingFallback { path: p } => p matches Some(pp)
                                && pp@ == path@,
                        },
                        RouterError::Pattern(_) => (exists|j: int|
                            0 <= j < old(self).routes@.len() && (#[trigger] old(self).routes@[j]).0 == trie_contents(old(self).node)[path@] && trie_contents(old(self).node).dom().contains(path@) && old(self).routes@[j].1.kind is Route) || (
                        !trie_contents(old(self).node).dom().contains(path@) && !trie_accepts(
                            old(self).node,
                            path@,
                        ) && !trie_accepts(final(self).node, path@)),
                        RouterError::TooManyParameters => !trie_contents(
                            old(self).node,
                        ).dom().contains(path@) && spec_count_char(path@, ':')
                            > MAX_PATTERN_PARAMS,
                        RouterError::RouteIdExhausted => !trie_contents(
                            old(self).node,
                        ).dom().contains(path@) && old(self).prev_route_id == u32::MAX,
                        _ => false,
                    }
                },
            },
    {
        if path.as_str().is_empty() {
            return Err(RouterError::InvalidPath);
        }
        if path.as_str().get_char(0) != '/' {
            return Err(RouterError::InvalidPath);
        }
        let found = self.find_id_of_path(path);
        match found {
            Some(id) => {
                proof {
                    let i = choose|i: int|
                        0 <= i < self.paths@.len() && (#[trigger] self.paths@[i]).0 == id
                            && self.paths@[i].1@ == path@;
                    assert(trie_contents(self.node).contains_pair(path@, id));
                }
                let j = match self.find_route_index(id) {
                    Some(j) => j,
                    None => {
                        proof {
                            let i = choose|i: int|
                                0 <= i < self.paths@.len() && (#[trigger] self.paths@[i]).0 == id
                                    && self.paths@[i].1@ == path@;
                            assert(spec_ids_has(self.routes@, id));
                        }
                        vstd::pervasive::unreached()
                    }
                };
                match &self.routes[j].1.kind {
                    EndpointKind::MethodRouter(prev) => {
                        match prev.find_overlap(&method_router) {
                            Some(e) => {
                                let named = attach_path(e, path);
                                proof {
                                    assert(trie_contents(self.node)[path@] == id);
                                }
                                return Err(RouterError::Method(named));
                            }
                            None => {}
                        }
                    }
                    EndpointKind::Route(_) => {
                        proof {
                            assert(trie_contents(self.node)[path@] == id);
                            assert(!spec_route_conflict(*old(self), path@, method_router));
                        }
                        return Err(
                            RouterError::Pattern(TrieInsertError::Conflict { with: path.clone() }),
                        );
                    }
                }
                // no overlap: combining the two tables must succeed
                let ghost routes0 = self.routes@;
                let (rid, ep) = self.routes.remove(j);
                let Endpoint { kind, strips: old_strips } = ep;
                match kind {
                    EndpointKind::MethodRouter(prev) => {
                        let merged = match prev.merge_for_path(Some(path), method_router) {
                            Ok(m) => m,
                            Err(_) => {
                                vstd::pervasive::unreached()
                            }
                        };
                        self.routes.insert(
                            j,
                            (
                                rid,
                                Endpoint {
                                    kind: EndpointKind::MethodRouter(merged),
                                    strips: old_strips,
                                },
                            ),
                        );
                        proof {
                            assert(self.routes@ =~= routes0.update(
                                j as int,
                                self.routes@[j as int],
                            ));
                            assert(self.routes@[j as int].0 == id);
                            assert forall|a: int, b: int|
                                0 <= a < b < self.routes@.len() implies (
                            #[trigger] self.routes@[a]).0 != (#[trigger] self.routes@[b]).0 by {
                                assert(self.routes@[a].0 == routes0[a].0);
                                assert(self.routes@[b].0 == routes0[b].0);
                            }
                            assert forall|i: int|
                                0 <= i < self.paths@.len() implies spec_ids_has(
                                self.routes@,
                                (#[trigger] self.paths@[i]).0,
                            ) by {
                                assert(spec_ids_has(routes0, self.paths@[i].0));
                                let k = choose|k: int|
                                    0 <= k < routes0.len() && (#[trigger] routes0[k]).0
                                        == self.paths@[i].0;
                                assert(self.routes@[k].0 == self.paths@[i].0);
                            }
                            assert forall|k: int|
                                0 <= k < self.routes@.len() implies spec_ids_has(
                                self.paths@,
                                (#[trigger] self.routes@[k]).0,
                            ) by {
                                assert(self.routes@[k].0 == routes0[k].0);
                                assert(spec_ids_has(self.paths@, routes0[k].0));
                            }
                            assert(trie_contents(self.node)[path@] == id);
                        }
                        Ok(())
                    }
                    EndpointKind::Route(_) => vstd::pervasive::unreached(),
                }
            }
            None => {
                proof {
                    if trie_contents(self.node).dom().contains(path@) {
                        let i = choose|i: int|
                            0 <= i < self.paths@.len() && (#[trigger] self.paths@[i]).1@ == path@
                                && self.paths@[i].0 == trie_contents(self.node)[path@];
                        assert(false);
                    }
                    assert(!spec_route_conflict(*old(self), path@, method_router));
                }
                self.route_endpoint(
                    path,
                    Endpoint { kind: EndpointKind::MethodRouter(method_router), strips },
                )
            }
        }
    }
}

/// Names the path on a method-table error.
fn attach_path(e: MethodRouterError, path: &String) -> (r: MethodRouterError)
    ensures
        match (e, r) {
            (
                MethodRouterError::OverlappingMethodRoute { method: m0, .. },
                MethodRouterError::OverlappingMethodRoute { method, path: p },
            ) => method == m0 && (p matches Some(pp) && pp@ == path@),
            (
                MethodRouterError::OverlappingFallback { .. },
                MethodRouterError::OverlappingFallback { path: p },
            ) => p matches Some(pp) && pp@ == path@,
            _ => false,
        },
{
    match e {
        MethodRouterError::OverlappingMethodRoute { method, path: _ } => {
            MethodRouterError::OverlappingMethodRoute { method, path: Some(path.clone()) }
        }
        MethodRouterError::OverlappingFallback { path: _ } => {
            MethodRouterError::OverlappingFallback { path: Some(path.clone()) }
        }
    }
}


/// How the two optional strings relate: both absent or equal.
pub open spec fn opt_view_eq(a: Option<String>, b: Option<String>) -> bool {
    match (a, b) {
        (Some(x), Some(y)) => x@ == y@,
        (None, None) => true,
        _ => false,
    }
}

/// The path left after every mount prefix is stripped in order; a prefix
/// that does not match leaves the path as it was.
pub open spec fn spec_strip_all(path: Seq<char>, strips: Seq<Seq<char>>) -> Seq<char>
    decreases strips.len(),
{
    if strips.len() == 0 {
        path
    } else {
        let next = match spec_strip_prefix(path, strips[0]) {
            Some(p) => p,
            None => path,
        };
        spec_strip_all(next, strips.drop_first())
    }
}

/// How a dispatched request relates to the incoming one: same verb,
/// headers, query and body; the path with the endpoint's mount prefixes
/// stripped; the captured parameters decoded into the parameter slot; the
/// matched pattern recorded; and the original path preserved.
pub open spec fn spec_prepared(
    req: Request,
    pattern: Seq<char>,
    params: Seq<(Seq<char>, Seq<char>)>,
    strips: Seq<Seq<char>>,
    req2: Request,
) -> bool {
    &&& req2.method == req.method
    &&& req2.headers@ == req.headers@
    &&& req2.body@ == req.body@
    &&& opt_view_eq(req2.query, req.query)
    &&& req2.path@ == spec_strip_all(req.path@, strips)
    &&& req2.extensions.body_limit == req.extensions.body_limit
    &&& spec_params_after(req.extensions.url_params, params, req2.extensions.url_params)
    &&& ({
        let full = crate::matched_path::spec_appended_path(
            crate::matched_path::spec_prev_path(req.extensions),
            pattern,
        );
        if crate::matched_path::spec_is_nested(full) {
            &&& req2.extensions.nested_matched_path matches Some(p) && p@ == full
            &&& opt_view_eq(req2.extensions.matched_path, req.extensions.matched_path)
        } else {
            &&& req2.extensions.matched_path matches Some(p) && p@ == full
            &&& req2.extensions.nested_matched_path is None
        }
    })
    &&& req2.extensions.original_path matches Some(p) && p@ == (match req.extensions.original_path {
        Some(op) => op@,
        None => req.path@,
    })
}

/// How a request handed back for fallback dispatch relates to the
/// incoming one: untouched, except that the original path is recorded.
pub open spec fn spec_unmatched(req: Request, q: Request) -> bool {
    &&& q.method == req.method
    &&& q.path@ == req.path@
    &&& q.headers@ == req.headers@
    &&& q.body@ == req.body@
    &&& opt_view_eq(q.query, req.query)
    &&& q.extensions.url_params == req.extensions.url_params
    &&& q.extensions.matched_path == req.extensions.matched_path
    &&& q.extensions.nested_matched_path == req.extensions.nested_matched_path
    &&& q.extensions.body_limit == req.extensions.body_limit
    &&& q.extensions.original_path matches Some(p) && p@ == (match req.extensions.original_path {
        Some(op) => op@,
        None => req.path@,
    })
}

/// Whether a dispatch outcome is accounted for: some registered endpoint,
/// under its registered pattern, was given a prepared form of the request
/// and resolved it.
pub open spec fn spec_path_dispatch<T>(pr: PathRouter<T>, req: Request, fut: RouteFuture<&T>) -> bool {
    exists|j: int|
        {
            &&& 0 <= j < pr.routes@.len()
            &&& trie_resolves(pr.node, req.path@) == Some((#[trigger] pr.routes@[j]).0)
            &&& exists|i: int, req2: Request|
                {
                    &&& 0 <= i < pr.paths@.len()
                    &&& pr.paths@[i].0 == pr.routes@[j].0
                    &&& #[trigger] spec_prepared(
                        req,
                        pr.paths@[i].1@,
                        trie_captures(pr.node, req.path@),
                        strs_view(pr.routes@[j].1.strips@),
                        req2,
                    )
                    &&& spec_dispatched_to(pr.routes@[j].1, req2, fut)
                }
        }
}

/// What a dispatch to one endpoint resolves to: for a method table, the
/// slot its verb selects, the fallback, or the built-in "method not
/// allowed" response with the derived `Allow` value; for a plain service,
/// that service.
pub open spec fn spec_dispatched_to<T>(ep: Endpoint<T>, req2: Request, fut: RouteFuture<&T>) -> bool {
    match ep.kind {
        EndpointKind::MethodRouter(mr) => match mr.spec_selected(req2.method) {
            Some(k) => {
                &&& fut.kind matches crate::route::RouteFutureKind::Future { service, request }
                    && *service == mr.spec_slot(k)->0 && request == req2
                &&& fut.strip == (req2.method == crate::method::Method::Head)
                &&& fut.allow is None
            },
            None => {
                &&& fut.strip == false
                &&& fut.spec_allow() == crate::method_routing::spec_allow_value(mr.allow_header)
                &&& match mr.fallback {
                    Some(f) => fut.kind matches crate::route::RouteFutureKind::Future {
                        service,
                        request,
                    } && *service == f && request == req2,
                    None => fut.kind matches crate::route::RouteFutureKind::Ready { response }
                        && response.status == crate::response::STATUS_METHOD_NOT_ALLOWED
                        && response.headers@ == Seq::<crate::headers::HeaderEntry>::empty()
                        && response.body@ == Seq::<u8>::empty(),
                }
            },
        },
        EndpointKind::Route(svc) => fut.kind matches crate::route::RouteFutureKind::Future {
            service,
            request,
        } && *service == svc && request == req2 && fut.strip == false && fut.allow is None,
    }
}

impl<T> PathRouter<T> {
    /// Dispatches a request: a trie hit prepares the request (parameters,
    /// matched pattern, prefix stripping) and resolves it against the
    /// matched endpoint; a miss hands the request back for fallback
    /// dispatch, distinguishing nothing beyond the miss itself.
    pub fn call_with_state<'a>(&'a self, req: Request) -> (r: Result<RouteFuture<&'a T>, Request>)
        requires
            self.wf(),
        ensures
            match r {
                Ok(fut) => spec_path_dispatch(*self, req, fut),
                Err(q) => spec_unmatched(req, q) && trie_resolves(self.node, req.path@) is None,
            },
    {
        let ghost req0 = req;
        let mut req = req;
        if req.extensions.original_path.is_none() {
            req.extensions.original_path = Some(req.path.clone());
        }
        match trie_at(&self.node, &req.path) {
            TrieMatch::Found { id, params } => {
                let ghost chosen_p = choose|p: Seq<char>|
                    #[trigger] trie_contents(self.node).contains_pair(p, id);
                proof {
                    assert(trie_contents(self.node).dom().contains(chosen_p));
                    let i = choose|i: int|
                        0 <= i < self.paths@.len() && (#[trigger] self.paths@[i]).1@ == chosen_p
                            && self.paths@[i].0 == trie_contents(self.node)[chosen_p];
                    assert(spec_ids_has(self.paths@, id));
                }
                let j = match self.find_route_index(id) {
                    Some(j) => j,
                    None => {
                        proof {
                            let i = choose|i: int|
                                0 <= i < self.paths@.len() && (#[trigger] self.paths@[i]).0 == id;
                            assert(spec_ids_has(self.routes@, id));
                        }
                        vstd::pervasive::unreached()
                    }
                };
                let pattern = match self.find_path(id) {
                    Some(p) => p,
                    None => vstd::pervasive::unreached(),
                };
                let ghost params_v = params.deep_view();
                set_matched_path_for_request(pattern, &mut req.extensions);
                insert_url_params(&mut req.extensions, params);
                let ep = &self.routes[j].1;
                let ghost strips_v = strs_view(ep.strips@);
                let ghost path0 = req.path@;
                let ghost reqp = req;
                let mut k: usize = 0;
                proof {
                    assert(strips_v.skip(0) =~= strips_v);
                }
                while k < ep.strips.len()
                    invariant
                        0 <= k <= ep.strips@.len(),
                        strips_v == strs_view(ep.strips@),
                        req.method == reqp.method,
                        req.headers == reqp.headers,
                        req.body == reqp.body,
                        req.query == reqp.query,
                        req.extensions == reqp.extensions,
                        spec_strip_all(path0, strips_v) == spec_strip_all(
                            req.path@,
                            strips_v.skip(k as int),
                        ),
                    decreases ep.strips@.len() - k,
                {
                    proof {
                        assert(strips_v.skip(k as int)[0] == strips_v[k as int]);
                        assert(strips_v[k as int] == ep.strips@[k as int]@);
                        assert(strips_v.skip(k as int).drop_first() =~= strips_v.skip(k as int + 1));
                    }
                    match strip_prefix(&req.path, &ep.strips[k]) {
                        Some(stripped) => {
                            req.path = stripped;
                        }
                        None => {}
                    }
                    k = k + 1;
                }
                proof {
                    assert(strips_v.skip(strips_v.len() as int) =~= Seq::<Seq<char>>::empty());
                    assert(req.path@ == spec_strip_all(path0, strips_v));
                }
                let ghost req2 = req;
                proof {
                    let i = choose|i: int|
                        0 <= i < self.paths@.len() && (#[trigger] self.paths@[i]).0 == id
                            && self.paths@[i].1@ == pattern@;
                    assert(req2.method == req0.method);
                    assert(req2.headers@ == req0.headers@);
                    assert(req2.body@ == req0.body@);
                    assert(opt_view_eq(req2.query, req0.query));
                    assert(req2.path@ == spec_strip_all(req0.path@, strips_v));
                    assert(req2.extensions.body_limit == req0.extensions.body_limit);
                    assert(spec_params_after(
                        req0.extensions.url_params,
                        params_v,
                        req2.extensions.url_params,
                    ));
                    assert(req2.extensions.original_path matches Some(p) && p@ == (
                    match req0.extensions.original_path {
                        Some(op) => op@,
                        None => req0.path@,
                    }));
                    assert(spec_prepared(req0, self.paths@[i].1@, params_v, strips_v, req2));
                    assert(spec_ids_has(self.paths@, self.routes@[j as int].0));
                }
                let fut = match &ep.kind {
                    EndpointKind::MethodRouter(mr) => mr.call_with_state(req),
                    EndpointKind::Route(svc) => RouteFuture::from_future(svc, req),
                };
                proof {
                    assert(spec_dispatched_to(self.routes@[j as int].1, req2, fut));
                }
                Ok(fut)
            }
            TrieMatch::NotFound => Err(req),
            TrieMatch::ExtraTrailingSlash => Err(req),
            TrieMatch::MissingTrailingSlash => Err(req),
        }
    }
}

/// Whether both registries carry, at one pattern, a method table with the
/// given verb occupied.
pub open spec fn spec_overlap_witness<T>(
    a: PathRouter<T>,
    b: PathRouter<T>,
    pt: Seq<char>,
    m: crate::method::Method,
) -> bool {
    exists|ja: int, jb: int|
        #![trigger a.routes@[ja], b.routes@[jb]]
        {
            &&& trie_contents(a.node).dom().contains(pt)
            &&& trie_contents(b.node).dom().contains(pt)
            &&& 0 <= ja < a.routes@.len()
            &&& 0 <= jb < b.routes@.len()
            &&& a.routes@[ja].0 == trie_contents(a.node)[pt]
            &&& b.routes@[jb].0 == trie_contents(b.node)[pt]
            &&& match (a.routes@[ja].1.kind, b.routes@[jb].1.kind) {
                (EndpointKind::MethodRouter(x), EndpointKind::MethodRouter(y)) => x.spec_slot(m)
                    is Some && y.spec_slot(m) is Some,
                _ => false,
            }
        }
}

/// Whether both registries carry, at one pattern, a method table with a
/// fallback.
pub open spec fn spec_fallback_overlap_witness<T>(
    a: PathRouter<T>,
    b: PathRouter<T>,
    pt: Seq<char>,
) -> bool {
    exists|ja: int, jb: int|
        #![trigger a.routes@[ja], b.routes@[jb]]
        {
            &&& trie_contents(a.node).dom().contains(pt)
            &&& trie_contents(b.node).dom().contains(pt)
            &&& 0 <= ja < a.routes@.len()
            &&& 0 <= jb < b.routes@.len()
            &&& a.routes@[ja].0 == trie_contents(a.node)[pt]
            &&& b.routes@[jb].0 == trie_contents(b.node)[pt]
            &&& match (a.routes@[ja].1.kind, b.routes@[jb].1.kind) {
                (EndpointKind::MethodRouter(x), EndpointKind::MethodRouter(y)) => x.fallback
                    is Some && y.fallback is Some,
                _ => false,
            }
        }
}

/// Whether the two registries carry one pattern with endpoints that are
/// not both method tables, so that the pattern cannot be merged.
pub open spec fn spec_kind_mismatch_at<T>(a: PathRouter<T>, b: PathRouter<T>, pt: Seq<char>) -> bool {
    exists|ja: int, jb: int|
        #![trigger a.routes@[ja], b.routes@[jb]]
        {
            &&& trie_contents(a.node).dom().contains(pt)
            &&& trie_contents(b.node).dom().contains(pt)
            &&& 0 <= ja < a.routes@.len()
            &&& 0 <= jb < b.routes@.len()
            &&& a.routes@[ja].0 == trie_contents(a.node)[pt]
            &&& b.routes@[jb].0 == trie_contents(b.node)[pt]
            &&& !match (a.routes@[ja].1.kind, b.routes@[jb].1.kind) {
                (EndpointKind::MethodRouter(_), EndpointKind::MethodRouter(_)) => true,
                _ => false,
            }
        }
}

/// Whether the endpoint entry for a pattern's identifier still lies in
/// the first `upto` endpoint entries of a registry being drained.
pub open spec fn spec_pending_id<T>(b: PathRouter<T>, upto: int, p: Seq<char>) -> bool {
    exists|j: int|
        0 <= j < upto && (#[trigger] b.routes@[j]).0 == trie_contents(b.node)[p]
}

/// As [`spec_pending_id`], and the pending entry carries this endpoint.
pub open spec fn spec_pending_ep<T>(b: PathRouter<T>, upto: int, p: Seq<char>, ep: Endpoint<T>) -> bool {
    exists|j: int|
        0 <= j < upto && (#[trigger] b.routes@[j]).0 == trie_contents(b.node)[p]
            && b.routes@[j].1 == ep
}

/// Whether a registry serves the joined pattern of an inner pattern with
/// the inner endpoint: same kind, and the mount prefix recorded in front
/// of the inner strips.
pub open spec fn spec_nested_route<T>(
    r: PathRouter<T>,
    prefix: Seq<char>,
    p: Seq<char>,
    ep: Endpoint<T>,
) -> bool {
    &&& trie_contents(r.node).dom().contains(spec_nested_path(prefix, p))
    &&& exists|j: int|
        0 <= j < r.routes@.len() && (#[trigger] r.routes@[j]).0 == trie_contents(r.node)[spec_nested_path(prefix, p)] && r.routes@[j].1.kind == ep.kind && strs_view(
            r.routes@[j].1.strips@,
        ) == seq![prefix] + strs_view(ep.strips@)
}

/// Whether the registry's endpoint at a pattern is a plain service.
pub open spec fn spec_plain_occupant<T>(r: PathRouter<T>, p: Seq<char>) -> bool {
    &&& trie_contents(r.node).dom().contains(p)
    &&& exists|j: int|
        0 <= j < r.routes@.len() && (#[trigger] r.routes@[j]).0 == trie_contents(r.node)[p]
            && r.routes@[j].1.kind is Route
}

/// No pattern registered on both sides, among the first `upto` endpoint
/// entries of `b`, carries a verb-level clash between its two method
/// tables, nor any pairing other than two method tables.
pub open spec fn spec_scan_clear<T>(a: PathRouter<T>, b: PathRouter<T>, upto: int) -> bool {
    forall|pt: Seq<char>, ja: int, jb: int|
        #![trigger a.routes@[ja], b.routes@[jb], spec_has_pattern(a, pt)]
        {
            &&& 0 <= jb < upto
            &&& spec_has_pattern(a, pt)
            &&& trie_contents(b.node).dom().contains(pt)
            &&& 0 <= ja < a.routes@.len()
            &&& (a.routes@[ja]).0 == trie_contents(a.node)[pt]
            &&& (b.routes@[jb]).0 == trie_contents(b.node)[pt]
        } ==> match (a.routes@[ja].1.kind, b.routes@[jb].1.kind) {
            (EndpointKind::MethodRouter(x), EndpointKind::MethodRouter(y)) => !spec_overlaps(x, y),
            _ => false,
        }
}

impl<T: Clone> PathRouter<T> {
    /// Unions another registry into this one. A pattern carried by both
    /// has its method tables combined; a verb registered on both sides of
    /// one pattern is a conflict naming the pattern and the verb, reported
    /// before anything is moved. On success both sides' endpoints survive:
    /// a pattern one side held keeps its endpoint, and every error names a
    /// condition that actually held.
    #[verifier::loop_isolation(false)]
    pub fn merge(&mut self, other: PathRouter<T>) -> (r: Result<(), RouterError>)
        requires
            old(self).wf(),
            other.wf(),
        ensures
            final(self).wf(),
            match r {
                Ok(()) => {
                    &&& forall|p: Seq<char>|
                        #[trigger] trie_contents(old(self).node).dom().contains(p)
                            ==> trie_contents(final(self).node).dom().contains(p)
                    &&& forall|p: Seq<char>|
                        #[trigger] trie_contents(other.node).dom().contains(p) ==> trie_contents(
                            final(self).node,
                        ).dom().contains(p)
                    &&& forall|p: Seq<char>, ep: Endpoint<T>|
                        !trie_contents(other.node).dom().contains(p) && #[trigger] spec_has_route(
                            *old(self),
                            p,
                            ep,
                        ) ==> spec_has_route(*final(self), p, ep)
                    &&& forall|p: Seq<char>, ep: Endpoint<T>|
                        !trie_contents(old(self).node).dom().contains(p)
                            && #[trigger] spec_has_route(other, p, ep) ==> spec_has_route(
                            *final(self),
                            p,
                            ep,
                        )
                },
                Err(e) => match e {
                    RouterError::Method(me) => {
                        &&& final(self).routes == old(self).routes
                        &&& final(self).paths == old(self).paths
                        &&& trie_contents(final(self).node) == trie_contents(old(self).node)
                        &&& final(self).prev_route_id == old(self).prev_route_id
                        &&& match me {
                            MethodRouterError::OverlappingMethodRoute { method, path: p } => p matches Some(pp) && spec_overlap_witness(*old(self), other, pp@, method),
                            MethodRouterError::OverlappingFallback { path: p } => p matches Some(
                                pp,
                            ) && spec_fallback_overlap_witness(*old(self), other, pp@),
                        }
                    },
                    RouterError::Pattern(_) => (exists|pt: Seq<char>|
                        #[trigger] spec_kind_mismatch_at(*old(self), other, pt)) || (exists|
                        p: Seq<char>,
                    |
                        #[trigger] trie_contents(other.node).dom().contains(p) && !trie_accepts(
                            final(self).node,
                            p,
                        )),
                    RouterError::TooManyParameters => exists|p: Seq<char>|
                        #[trigger] trie_contents(other.node).dom().contains(p) && spec_count_char(
                            p,
                            ':',
                        ) > MAX_PATTERN_PARAMS,
                    RouterError::RouteIdExhausted => final(self).prev_route_id == u32::MAX,
                    _ => false,
                },
            },
            // a verb registered at one pattern on both sides is refused
            r is Ok ==> spec_scan_clear(*old(self), other, other.routes@.len() as int),
    {
        // first pass: report any clash against the untouched registry
        let ghost other0 = other;
        let mut jb: usize = 0;
        while jb < other.routes.len()
            invariant
                0 <= jb <= other.routes@.len(),
                *self == *old(self),
                other == other0,
                old(self).wf(),
                other.wf(),
                spec_scan_clear(*old(self), other, jb as int),
            decreases other.routes@.len() - jb,
        {
            let id_b = other.routes[jb].0;
            let pat = match find_path_in(&other.paths, id_b) {
                Some(p) => p,
                None => {
                    proof {
                        assert(spec_ids_has(other.paths@, id_b));
                    }
                    vstd::pervasive::unreached()
                }
            };
            match self.find_id_of_path(pat) {
                Some(id_a) => {
                    let ja = match self.find_route_index(id_a) {
                        Some(j) => j,
                        None => {
                            proof {
                                let i = choose|i: int|
                                    0 <= i < self.paths@.len() && (#[trigger] self.paths@[i]).0
                                        == id_a;
                                assert(spec_ids_has(self.routes@, id_a));
                            }
                            vstd::pervasive::unreached()
                        }
                    };
                    proof {
                        let ia = choose|i: int|
                            0 <= i < self.paths@.len() && (#[trigger] self.paths@[i]).0 == id_a
                                && self.paths@[i].1@ == pat@;
                        assert(trie_contents(self.node).contains_pair(pat@, id_a));
                        let ib = choose|i: int|
                            0 <= i < other.paths@.len() && (#[trigger] other.paths@[i]).0 == id_b
                                && other.paths@[i].1@ == pat@;
                        assert(trie_contents(other.node).contains_pair(pat@, id_b));
                    }
                    match (&self.routes[ja].1.kind, &other.routes[jb].1.kind) {
                        (EndpointKind::MethodRouter(a), EndpointKind::MethodRouter(b)) => {
                            match a.find_overlap(b) {
                                Some(e) => {
                                    let named = attach_path(e, pat);
                                    proof {
                                        match named {
                                            MethodRouterError::OverlappingMethodRoute {
                                                method,
                                                path: _,
                                            } => {
                                                assert(spec_overlap_witness(
                                                    *old(self),
                                                    other,
                                                    pat@,
                                                    method,
                                                ));
                                            },
                                            MethodRouterError::OverlappingFallback { path: _ } => {
                                                assert(spec_fallback_overlap_witness(
                                                    *old(self),
                                                    other,
                                                    pat@,
                                                ));
                                            },
                                        }
                                    }
                                    return Err(RouterError::Method(named));
                                }
                                None => {}
                            }
                        }
                        _ => {
                            proof {
                                assert(spec_kind_mismatch_at(*old(self), other, pat@));
                            }
                            return Err(
                                RouterError::Pattern(
                                    TrieInsertError::Conflict { with: pat.clone() },
                                ),
                            );
                        }
                    }
                    proof {
                        lemma_merge_scan_step(*self, other, ja as int, jb as int, id_a, id_b, pat@);
                    }
                }
                None => {
                    proof {
                        lemma_merge_scan_miss(*self, other, jb as int, id_b, pat@);
                    }
                }
            }
            jb = jb + 1;
        }
        // second pass: move the routes over
        let PathRouter { node: _, paths: other_paths, routes: mut other_routes, prev_route_id: _ } =
            other;
        proof {
            assert(other_routes@ =~= other0.routes@.subrange(0, other_routes@.len() as int));
        }
        while other_routes.len() > 0
            invariant
                self.wf(),
                spec_scan_clear(*old(self), other0, other0.routes@.len() as int),
                other_paths == other0.paths,
                other_routes@.len() <= other0.routes@.len(),
                other_routes@ == other0.routes@.subrange(0, other_routes@.len() as int),
                forall|p: Seq<char>|
                    #[trigger] trie_contents(old(self).node).dom().contains(p) ==> trie_contents(
                        self.node,
                    ).dom().contains(p),
                forall|p: Seq<char>, ep: Endpoint<T>|
                    (!trie_contents(other0.node).dom().contains(p) || spec_pending_id(
                        other0,
                        other_routes@.len() as int,
                        p,
                    )) && #[trigger] spec_has_route(*old(self), p, ep) ==> spec_has_route(
                        *self,
                        p,
                        ep,
                    ),
                forall|p: Seq<char>, ep: Endpoint<T>|
                    !trie_contents(old(self).node).dom().contains(p) && #[trigger] spec_has_route(
                        other0,
                        p,
                        ep,
                    ) ==> (spec_has_route(*self, p, ep) || spec_pending_ep(
                        other0,
                        other_routes@.len() as int,
                        p,
                        ep,
                    )),
                forall|p: Seq<char>|
                    #[trigger] trie_contents(self.node).dom().contains(p) ==> trie_contents(
                        old(self).node,
                    ).dom().contains(p) || (trie_contents(other0.node).dom().contains(p)
                        && !spec_pending_id(other0, other_routes@.len() as int, p)),
            decreases other_routes@.len(),
        {
            let ghost routes_before = other_routes@;
            let ghost k = other_routes@.len() - 1;
            let next = other_routes.pop();
            match next {
                Some((id, ep)) => {
                    let ghost ep0 = ep;
                    proof {
                        assert(routes_before == other0.routes@.subrange(
                            0,
                            routes_before.len() as int,
                        ));
                        assert(routes_before.last() == other0.routes@.subrange(
                            0,
                            routes_before.len() as int,
                        )[k]);
                        assert(routes_before.last() == other0.routes@[k]);
                        assert(other0.routes@[k].0 == id);
                        assert(other0.routes@[k].1 == ep0);
                        assert(other_routes@ == routes_before.drop_last());
                        assert(other_routes@ =~= other0.routes@.subrange(
                            0,
                            other_routes@.len() as int,
                        ));
                    }
                    let pat = match find_path_in(&other_paths, id) {
                        Some(p) => p.clone(),
                        None => {
                            proof {
                                assert(spec_ids_has(other_paths@, routes_before.last().0));
                            }
                            vstd::pervasive::unreached()
                        }
                    };
                    proof {
                        let i2 = choose|i2: int|
                            0 <= i2 < other_paths@.len() && (#[trigger] other_paths@[i2]).0 == id
                                && other_paths@[i2].1@ == pat@;
                        assert(trie_contents(other0.node).contains_pair(pat@, id));
                        // the popped entry was the only pending one for its pattern
                        assert forall|j: int|
                            0 <= j < k implies (#[trigger] other0.routes@[j]).0 != id by {
                            assert(other0.routes@[k].0 == id);
                        }
                        assert(!spec_pending_id(other0, k, pat@));
                        // a pattern this side already serves is one it held before
                        if trie_contents(self.node).dom().contains(pat@) {
                            assert(spec_pending_id(other0, k + 1, pat@));
                            assert(trie_contents(old(self).node).dom().contains(pat@));
                        }
                    }
                    let ghost self_pre = *self;
                    let ghost shared = trie_contents(self_pre.node).dom().contains(pat@);
                    proof {
                        if shared {
                            // the endpoint this side holds at the pattern is
                            // still the one it held before the merge began
                            assert(trie_contents(old(self).node).dom().contains(pat@));
                            let ia = choose|i: int|
                                0 <= i < old(self).paths@.len() && (
                                #[trigger] old(self).paths@[i]).1@ == pat@ && old(self).paths@[i].0
                                    == trie_contents(old(self).node)[pat@];
                            assert(spec_ids_has(old(self).routes@, old(self).paths@[ia].0));
                            let ja = choose|ja: int|
                                0 <= ja < old(self).routes@.len() && (
                                #[trigger] old(self).routes@[ja]).0 == old(self).paths@[ia].0;
                            let ep_old = old(self).routes@[ja].1;
                            assert(spec_has_route(*old(self), pat@, ep_old));
                            assert(other0.routes@[k].0 == trie_contents(other0.node)[pat@]);
                            assert(spec_pending_id(other0, k + 1, pat@));
                            assert(spec_has_route(self_pre, pat@, ep_old));
                            // the scan cleared this very pair
                            assert(spec_has_pattern(*old(self), pat@));
                            assert(match (old(self).routes@[ja].1.kind, other0.routes@[k].1.kind) {
                                (
                                    EndpointKind::MethodRouter(x),
                                    EndpointKind::MethodRouter(y),
                                ) => !spec_overlaps(x, y),
                                _ => false,
                            });
                        }
                    }
                    let outcome = match ep.kind {
                        EndpointKind::MethodRouter(mr) => self.route_with_strips(
                            &pat,
                            mr,
                            ep.strips,
                        ),
                        EndpointKind::Route(svc) => self.route_endpoint(
                            &pat,
                            Endpoint { kind: EndpointKind::Route(svc), strips: ep.strips },
                        ),
                    };
                    match outcome {
                        Ok(()) => {
                            proof {
                                assert(trie_contents(self.node).dom().contains(pat@));
                                if !shared {
                                    // the endpoint moved over unchanged
                                    let last = self_pre.routes@.len() as int;
                                    assert(self.routes@[last].0 == trie_contents(
                                        self.node,
                                    )[pat@]);
                                    assert(self.routes@[last].1 =~= ep0);
                                    assert(spec_has_route(*self, pat@, ep0));
                                }
                                lemma_merge_step_preserves(
                                    *old(self),
                                    other0,
                                    self_pre,
                                    *self,
                                    pat@,
                                    id,
                                    ep0,
                                    k,
                                );
                            }
                        }
                        Err(e) => {
                            proof {
                                if shared {
                                    // cleared by the scan: this cannot fail
                                    let ia = choose|i: int|
                                        0 <= i < old(self).paths@.len() && (
                                        #[trigger] old(self).paths@[i]).1@ == pat@ && old(self).paths@[i].0 == trie_contents(old(self).node)[pat@];
                                    assert(spec_ids_has(old(self).routes@, old(self).paths@[ia].0));
                                    let ja = choose|ja: int|
                                        0 <= ja < old(self).routes@.len() && (
                                        #[trigger] old(self).routes@[ja]).0 == old(self).paths@[ia].0;
                                    let ep_old = old(self).routes@[ja].1;
                                    assert(spec_has_route(self_pre, pat@, ep_old));
                                    let js = choose|js: int|
                                        0 <= js < self_pre.routes@.len() && (
                                        #[trigger] self_pre.routes@[js]).0 == trie_contents(
                                            self_pre.node,
                                        )[pat@] && self_pre.routes@[js].1 == ep_old;
                                    assert(spec_has_pattern(*old(self), pat@));
                                    assert(other0.routes@[k].0 == trie_contents(other0.node)[pat@]);
                                    assert(match (
                                        old(self).routes@[ja].1.kind,
                                        other0.routes@[k].1.kind,
                                    ) {
                                        (
                                            EndpointKind::MethodRouter(x),
                                            EndpointKind::MethodRouter(y),
                                        ) => !spec_overlaps(x, y),
                                        _ => false,
                                    });
                                    match ep0.kind {
                                        EndpointKind::MethodRouter(y) => {
                                            assert(spec_route_ok(self_pre, pat@, y));
                                            assert(false);
                                        },
                                        EndpointKind::Route(_) => {
                                            assert(false);
                                        },
                                    }
                                }
                            }
                            return Err(e);
                        }
                    }
                }
                None => {
                    vstd::pervasive::unreached()
                }
            }
        }
        proof {
            assert(other_routes@.len() == 0);
            assert forall|p: Seq<char>|
                #[trigger] trie_contents(other0.node).dom().contains(p) implies trie_contents(
                self.node,
            ).dom().contains(p) by {
                let id = trie_contents(other0.node)[p];
                let i = choose|i: int|
                    0 <= i < other0.paths@.len() && (#[trigger] other0.paths@[i]).1@ == p
                        && other0.paths@[i].0 == id;
                assert(spec_ids_has(other0.routes@, other0.paths@[i].0));
                let j = choose|j: int|
                    0 <= j < other0.routes@.len() && (#[trigger] other0.routes@[j]).0 == id;
                let ep = other0.routes@[j].1;
                assert(spec_has_route(other0, p, ep));
                if !trie_contents(old(self).node).dom().contains(p) {
                    assert(!spec_pending_ep(other0, 0, p, ep));
                    assert(spec_has_route(*self, p, ep));
                }
            }
        }
        Ok(())
    }
}

/// One step of a merge's second pass preserves what must survive: the
/// patterns this side alone held keep their endpoints, the moved pattern
/// is no longer owed, and nothing appears out of nowhere.
proof fn lemma_merge_step_preserves<T: Clone>(
    base: PathRouter<T>,
    other0: PathRouter<T>,
    pre: PathRouter<T>,
    post: PathRouter<T>,
    pat: Seq<char>,
    id: u32,
    ep0: Endpoint<T>,
    k: int,
)
    requires
        base.wf(),
        other0.wf(),
        0 <= k < other0.routes@.len(),
        other0.routes@[k].0 == id,
        other0.routes@[k].1 == ep0,
        trie_contents(other0.node).contains_pair(pat, id),
        !spec_pending_id(other0, k, pat),
        // what held before the step
        forall|p: Seq<char>, ep: Endpoint<T>|
            (!trie_contents(other0.node).dom().contains(p) || spec_pending_id(other0, k + 1, p))
                && #[trigger] spec_has_route(base, p, ep) ==> spec_has_route(pre, p, ep),
        forall|p: Seq<char>, ep: Endpoint<T>|
            !trie_contents(base.node).dom().contains(p) && #[trigger] spec_has_route(
                other0,
                p,
                ep,
            ) ==> (spec_has_route(pre, p, ep) || spec_pending_ep(other0, k + 1, p, ep)),
        forall|p: Seq<char>|
            #[trigger] trie_contents(pre.node).dom().contains(p) ==> trie_contents(
                base.node,
            ).dom().contains(p) || (trie_contents(other0.node).dom().contains(p)
                && !spec_pending_id(other0, k + 1, p)),
        // what the step did
        trie_contents(post.node).dom().contains(pat),
        !trie_contents(pre.node).dom().contains(pat) ==> spec_has_route(post, pat, ep0),
        forall|p: Seq<char>|
            #[trigger] trie_contents(pre.node).dom().contains(p) ==> trie_contents(
                post.node,
            ).dom().contains(p),
        forall|p: Seq<char>|
            #[trigger] trie_contents(post.node).dom().contains(p) ==> p == pat || trie_contents(
                pre.node,
            ).dom().contains(p),
        forall|p: Seq<char>, ep: Endpoint<T>|
            p != pat && #[trigger] spec_has_route(pre, p, ep) ==> spec_has_route(post, p, ep),
    ensures
        forall|p: Seq<char>, ep: Endpoint<T>|
            (!trie_contents(other0.node).dom().contains(p) || spec_pending_id(other0, k, p))
                && #[trigger] spec_has_route(base, p, ep) ==> spec_has_route(post, p, ep),
        forall|p: Seq<char>, ep: Endpoint<T>|
            !trie_contents(base.node).dom().contains(p) && #[trigger] spec_has_route(
                other0,
                p,
                ep,
            ) ==> (spec_has_route(post, p, ep) || spec_pending_ep(other0, k, p, ep)),
        forall|p: Seq<char>|
            #[trigger] trie_contents(post.node).dom().contains(p) ==> trie_contents(
                base.node,
            ).dom().contains(p) || (trie_contents(other0.node).dom().contains(p)
                && !spec_pending_id(other0, k, p)),
{
    assert forall|p: Seq<char>, ep: Endpoint<T>|
        (!trie_contents(other0.node).dom().contains(p) || spec_pending_id(other0, k, p))
            && #[trigger] spec_has_route(base, p, ep) implies spec_has_route(post, p, ep) by {
        if p == pat {
            assert(trie_contents(other0.node).dom().contains(pat));
            assert(!spec_pending_id(other0, k, pat));
            assert(false);
        } else {
            if spec_pending_id(other0, k, p) {
                let j = choose|j: int|
                    0 <= j < k && (#[trigger] other0.routes@[j]).0 == trie_contents(other0.node)[p];
                assert(spec_pending_id(other0, k + 1, p));
            }
            assert(spec_has_route(pre, p, ep));
        }
    }
    assert forall|p: Seq<char>, ep: Endpoint<T>|
        !trie_contents(base.node).dom().contains(p) && #[trigger] spec_has_route(
            other0,
            p,
            ep,
        ) implies (spec_has_route(post, p, ep) || spec_pending_ep(other0, k, p, ep)) by {
        if p == pat {
            // the only endpoint other carries for this pattern is the moved one
            let j = choose|j: int|
                0 <= j < other0.routes@.len() && (#[trigger] other0.routes@[j]).0 == trie_contents(
                    other0.node,
                )[p] && other0.routes@[j].1 == ep;
            assert(other0.routes@[k].0 == trie_contents(other0.node)[pat]);
            assert(j == k);
            assert(ep == ep0);
            if trie_contents(pre.node).dom().contains(pat) {
                assert(trie_contents(base.node).dom().contains(pat));
                assert(false);
            }
            assert(spec_has_route(post, pat, ep0));
        } else {
            if spec_has_route(other0, p, ep) && !spec_has_route(pre, p, ep) {
                let j = choose|j: int|
                    0 <= j < k + 1 && (#[trigger] other0.routes@[j]).0 == trie_contents(
                        other0.node,
                    )[p] && other0.routes@[j].1 == ep;
                if j == k {
                    assert(other0.routes@[k].0 == trie_contents(other0.node)[p]);
                    assert(trie_contents(other0.node)[p] == id);
                    // two patterns cannot share one identifier
                    let ip = choose|i: int|
                        0 <= i < other0.paths@.len() && (#[trigger] other0.paths@[i]).1@ == p
                            && other0.paths@[i].0 == trie_contents(other0.node)[p];
                    let ipat = choose|i: int|
                        0 <= i < other0.paths@.len() && (#[trigger] other0.paths@[i]).1@ == pat
                            && other0.paths@[i].0 == trie_contents(other0.node)[pat];
                    assert(ip == ipat);
                    assert(false);
                }
                assert(spec_pending_ep(other0, k, p, ep));
            } else if spec_has_route(pre, p, ep) {
                assert(spec_has_route(post, p, ep));
            }
        }
    }
    assert forall|p: Seq<char>|
        #[trigger] trie_contents(post.node).dom().contains(p) implies trie_contents(
        base.node,
    ).dom().contains(p) || (trie_contents(other0.node).dom().contains(p) && !spec_pending_id(
        other0,
        k,
        p,
    )) by {
        if p == pat {
        } else {
            assert(trie_contents(pre.node).dom().contains(p));
            if !trie_contents(base.node).dom().contains(p) {
                assert(!spec_pending_id(other0, k + 1, p));
                if spec_pending_id(other0, k, p) {
                    let j = choose|j: int|
                        0 <= j < k && (#[trigger] other0.routes@[j]).0 == trie_contents(
                            other0.node,
                        )[p];
                    assert(spec_pending_id(other0, k + 1, p));
                }
            }
        }
    }
}

/// One step of nesting preserves what must survive: inner endpoints
/// whose joined pattern is fresh and unambiguous either already serve it
/// or are still owed, the moved pattern is no longer owed, and nothing
/// appears except joined patterns.
proof fn lemma_nest_step_preserves<T: Clone>(
    base: PathRouter<T>,
    other0: PathRouter<T>,
    pre: PathRouter<T>,
    post: PathRouter<T>,
    prefix: Seq<char>,
    pat: Seq<char>,
    id: u32,
    ep0: Endpoint<T>,
    k: int,
)
    requires
        other0.wf(),
        0 <= k < other0.routes@.len(),
        other0.routes@[k].0 == id,
        other0.routes@[k].1 == ep0,
        trie_contents(other0.node).contains_pair(pat, id),
        !spec_pending_id(other0, k, pat),
        // what held before the step
        forall|p: Seq<char>|
            #[trigger] trie_contents(other0.node).dom().contains(p) ==> (trie_contents(
                pre.node,
            ).dom().contains(spec_nested_path(prefix, p)) || spec_pending_id(other0, k + 1, p)),
        forall|p: Seq<char>, ep: Endpoint<T>|
            ({
                &&& #[trigger] spec_has_route(other0, p, ep)
                &&& !trie_contents(base.node).dom().contains(spec_nested_path(prefix, p))
                &&& forall|p2: Seq<char>|
                    #[trigger] trie_contents(other0.node).dom().contains(p2) && p2 != p
                        ==> spec_nested_path(prefix, p2) != spec_nested_path(prefix, p)
            }) ==> (spec_nested_route(pre, prefix, p, ep) || spec_pending_ep(other0, k + 1, p, ep)),
        forall|q: Seq<char>|
            #[trigger] trie_contents(pre.node).dom().contains(q) ==> trie_contents(
                base.node,
            ).dom().contains(q) || (exists|p2: Seq<char>|
                #[trigger] trie_contents(other0.node).dom().contains(p2) && !spec_pending_id(
                    other0,
                    k + 1,
                    p2,
                ) && q == spec_nested_path(prefix, p2)),
        // what the step did
        trie_contents(post.node).dom().contains(spec_nested_path(prefix, pat)),
        !trie_contents(pre.node).dom().contains(spec_nested_path(prefix, pat))
            ==> spec_nested_route(post, prefix, pat, ep0),
        forall|p: Seq<char>|
            #[trigger] trie_contents(pre.node).dom().contains(p) ==> trie_contents(
                post.node,
            ).dom().contains(p),
        forall|p: Seq<char>|
            #[trigger] trie_contents(post.node).dom().contains(p) ==> p == spec_nested_path(
                prefix,
                pat,
            ) || trie_contents(pre.node).dom().contains(p),
        forall|p: Seq<char>, ep: Endpoint<T>|
            p != spec_nested_path(prefix, pat) && #[trigger] spec_has_route(pre, p, ep)
                ==> spec_has_route(post, p, ep),
    ensures
        forall|p: Seq<char>|
            #[trigger] trie_contents(other0.node).dom().contains(p) ==> (trie_contents(
                post.node,
            ).dom().contains(spec_nested_path(prefix, p)) || spec_pending_id(other0, k, p)),
        forall|p: Seq<char>, ep: Endpoint<T>|
            ({
                &&& #[trigger] spec_has_route(other0, p, ep)
                &&& !trie_contents(base.node).dom().contains(spec_nested_path(prefix, p))
                &&& forall|p2: Seq<char>|
                    #[trigger] trie_contents(other0.node).dom().contains(p2) && p2 != p
                        ==> spec_nested_path(prefix, p2) != spec_nested_path(prefix, p)
            }) ==> (spec_nested_route(post, prefix, p, ep) || spec_pending_ep(other0, k, p, ep)),
        forall|q: Seq<char>|
            #[trigger] trie_contents(post.node).dom().contains(q) ==> trie_contents(
                base.node,
            ).dom().contains(q) || (exists|p2: Seq<char>|
                #[trigger] trie_contents(other0.node).dom().contains(p2) && !spec_pending_id(
                    other0,
                    k,
                    p2,
                ) && q == spec_nested_path(prefix, p2)),
{
    let full = spec_nested_path(prefix, pat);
    assert forall|p: Seq<char>|
        #[trigger] trie_contents(other0.node).dom().contains(p) implies (trie_contents(
        post.node,
    ).dom().contains(spec_nested_path(prefix, p)) || spec_pending_id(other0, k, p)) by {
        if spec_pending_id(other0, k + 1, p) && !spec_pending_id(other0, k, p) {
            let j = choose|j: int|
                0 <= j < k + 1 && (#[trigger] other0.routes@[j]).0 == trie_contents(other0.node)[p];
            if j < k {
                assert(spec_pending_id(other0, k, p));
            } else {
                assert(trie_contents(other0.node)[p] == id);
                let ip = choose|i: int|
                    0 <= i < other0.paths@.len() && (#[trigger] other0.paths@[i]).1@ == p
                        && other0.paths@[i].0 == trie_contents(other0.node)[p];
                let ipat = choose|i: int|
                    0 <= i < other0.paths@.len() && (#[trigger] other0.paths@[i]).1@ == pat
                        && other0.paths@[i].0 == trie_contents(other0.node)[pat];
                assert(ip == ipat);
                assert(p == pat);
                assert(trie_contents(post.node).dom().contains(full));
            }
        }
    }
    assert forall|p: Seq<char>, ep: Endpoint<T>|
        ({
            &&& #[trigger] spec_has_route(other0, p, ep)
            &&& !trie_contents(base.node).dom().contains(spec_nested_path(prefix, p))
            &&& forall|p2: Seq<char>|
                #[trigger] trie_contents(other0.node).dom().contains(p2) && p2 != p
                    ==> spec_nested_path(prefix, p2) != spec_nested_path(prefix, p)
        }) implies (spec_nested_route(post, prefix, p, ep) || spec_pending_ep(other0, k, p, ep)) by {
        if p == pat {
            // the moved endpoint is the only one other carries for pat
            let j = choose|j: int|
                0 <= j < other0.routes@.len() && (#[trigger] other0.routes@[j]).0 == trie_contents(
                    other0.node,
                )[p] && other0.routes@[j].1 == ep;
            assert(other0.routes@[k].0 == trie_contents(other0.node)[pat]);
            assert(j == k);
            assert(ep == ep0);
            if trie_contents(pre.node).dom().contains(full) {
                // a fresh, unambiguous joined pattern cannot be there yet
                assert(!trie_contents(base.node).dom().contains(full));
                let p2 = choose|p2: Seq<char>|
                    #[trigger] trie_contents(other0.node).dom().contains(p2) && !spec_pending_id(
                        other0,
                        k + 1,
                        p2,
                    ) && full == spec_nested_path(prefix, p2);
                if p2 == pat {
                    assert(spec_pending_id(other0, k + 1, pat));
                    assert(false);
                } else {
                    assert(spec_nested_path(prefix, p2) != spec_nested_path(prefix, pat));
                    assert(false);
                }
            }
            assert(spec_nested_route(post, prefix, pat, ep0));
        } else {
            if spec_pending_ep(other0, k + 1, p, ep) && !spec_pending_ep(other0, k, p, ep) {
                let j = choose|j: int|
                    0 <= j < k + 1 && (#[trigger] other0.routes@[j]).0 == trie_contents(
                        other0.node,
                    )[p] && other0.routes@[j].1 == ep;
                assert(j == k);
                assert(trie_contents(other0.node)[p] == id);
                let ip = choose|i: int|
                    0 <= i < other0.paths@.len() && (#[trigger] other0.paths@[i]).1@ == p
                        && other0.paths@[i].0 == trie_contents(other0.node)[p];
                let ipat = choose|i: int|
                    0 <= i < other0.paths@.len() && (#[trigger] other0.paths@[i]).1@ == pat
                        && other0.paths@[i].0 == trie_contents(other0.node)[pat];
                assert(ip == ipat);
                assert(false);
            }
            if spec_nested_route(pre, prefix, p, ep) {
                // its witness entry survives untouched
                let j = choose|j: int|
                    0 <= j < pre.routes@.len() && (#[trigger] pre.routes@[j]).0 == trie_contents(
                        pre.node,
                    )[spec_nested_path(prefix, p)] && pre.routes@[j].1.kind == ep.kind
                        && strs_view(pre.routes@[j].1.strips@) == seq![prefix] + strs_view(
                        ep.strips@,
                    );
                assert(spec_nested_path(prefix, p) != full);
                assert(spec_has_route(pre, spec_nested_path(prefix, p), pre.routes@[j].1));
                assert(spec_has_route(post, spec_nested_path(prefix, p), pre.routes@[j].1));
                assert(spec_nested_route(post, prefix, p, ep));
            }
        }
    }
    assert forall|q: Seq<char>|
        #[trigger] trie_contents(post.node).dom().contains(q) implies trie_contents(
        base.node,
    ).dom().contains(q) || (exists|p2: Seq<char>|
        #[trigger] trie_contents(other0.node).dom().contains(p2) && !spec_pending_id(other0, k, p2)
            && q == spec_nested_path(prefix, p2)) by {
        if q == full {
            assert(trie_contents(other0.node).dom().contains(pat));
            assert(!spec_pending_id(other0, k, pat));
        } else {
            assert(trie_contents(pre.node).dom().contains(q));
            if !trie_contents(base.node).dom().contains(q) {
                let p2 = choose|p2: Seq<char>|
                    #[trigger] trie_contents(other0.node).dom().contains(p2) && !spec_pending_id(
                        other0,
                        k + 1,
                        p2,
                    ) && q == spec_nested_path(prefix, p2);
                if spec_pending_id(other0, k, p2) {
                    let j = choose|j: int|
                        0 <= j < k && (#[trigger] other0.routes@[j]).0 == trie_contents(
                            other0.node,
                        )[p2];
                    assert(spec_pending_id(other0, k + 1, p2));
                }
            }
        }
    }
}

/// One scan step of a merge: the checked pair does not clash, so the
/// cleared range grows by one.
proof fn lemma_merge_scan_step<T>(
    a: PathRouter<T>,
    b: PathRouter<T>,
    ja: int,
    jb: int,
    id_a: u32,
    id_b: u32,
    pat: Seq<char>,
)
    requires
        a.wf(),
        b.wf(),
        spec_scan_clear(a, b, jb),
        0 <= ja < a.routes@.len(),
        0 <= jb < b.routes@.len(),
        a.routes@[ja].0 == id_a,
        b.routes@[jb].0 == id_b,
        exists|i: int|
            0 <= i < a.paths@.len() && (#[trigger] a.paths@[i]).0 == id_a && a.paths@[i].1@ == pat,
        exists|i: int|
            0 <= i < b.paths@.len() && (#[trigger] b.paths@[i]).0 == id_b && b.paths@[i].1@ == pat,
        match (a.routes@[ja].1.kind, b.routes@[jb].1.kind) {
            (EndpointKind::MethodRouter(x), EndpointKind::MethodRouter(y)) => !spec_overlaps(x, y),
            _ => false,
        },
    ensures
        spec_scan_clear(a, b, jb + 1),
{
    let i_a = choose|i: int|
        0 <= i < a.paths@.len() && (#[trigger] a.paths@[i]).0 == id_a && a.paths@[i].1@ == pat;
    let i_b = choose|i: int|
        0 <= i < b.paths@.len() && (#[trigger] b.paths@[i]).0 == id_b && b.paths@[i].1@ == pat;
    assert(trie_contents(a.node).contains_pair(pat, id_a));
    assert(trie_contents(b.node).contains_pair(pat, id_b));
    assert forall|pt: Seq<char>, ja2: int, jb2: int|
        #![trigger a.routes@[ja2], b.routes@[jb2], spec_has_pattern(a, pt)]
        {
            &&& 0 <= jb2 < jb + 1
            &&& spec_has_pattern(a, pt)
            &&& trie_contents(b.node).dom().contains(pt)
            &&& 0 <= ja2 < a.routes@.len()
            &&& (a.routes@[ja2]).0 == trie_contents(a.node)[pt]
            &&& (b.routes@[jb2]).0 == trie_contents(b.node)[pt]
        } implies match (a.routes@[ja2].1.kind, b.routes@[jb2].1.kind) {
        (EndpointKind::MethodRouter(x), EndpointKind::MethodRouter(y)) => !spec_overlaps(x, y),
        _ => false,
    } by {
        assert(spec_has_pattern(a, pt));
        if jb2 == jb {
            // this is the pair just checked: pt can only be the shared pattern
            assert(trie_contents(b.node)[pt] == id_b);
            let ib2 = choose|i: int|
                0 <= i < b.paths@.len() && (#[trigger] b.paths@[i]).1@ == pt && b.paths@[i].0
                    == trie_contents(b.node)[pt];
            assert(ib2 == i_b);
            assert(pt == pat);
            assert(trie_contents(a.node)[pt] == id_a);
            assert(a.routes@[ja2].0 == id_a);
            assert(ja2 == ja);
        }
    }
}

/// One scan step of a merge where this side does not know the pattern:
/// nothing can clash at it, so the cleared range grows by one.
proof fn lemma_merge_scan_miss<T>(
    a: PathRouter<T>,
    b: PathRouter<T>,
    jb: int,
    id_b: u32,
    pat: Seq<char>,
)
    requires
        a.wf(),
        b.wf(),
        spec_scan_clear(a, b, jb),
        0 <= jb < b.routes@.len(),
        b.routes@[jb].0 == id_b,
        exists|i: int|
            0 <= i < b.paths@.len() && (#[trigger] b.paths@[i]).0 == id_b && b.paths@[i].1@ == pat,
        forall|i: int| 0 <= i < a.paths@.len() ==> (#[trigger] a.paths@[i]).1@ != pat,
    ensures
        spec_scan_clear(a, b, jb + 1),
{
    let i_b = choose|i: int|
        0 <= i < b.paths@.len() && (#[trigger] b.paths@[i]).0 == id_b && b.paths@[i].1@ == pat;
    assert(trie_contents(b.node).contains_pair(pat, id_b));
    assert forall|pt: Seq<char>, ja2: int, jb2: int|
        #![trigger a.routes@[ja2], b.routes@[jb2], spec_has_pattern(a, pt)]
        {
            &&& 0 <= jb2 < jb + 1
            &&& spec_has_pattern(a, pt)
            &&& trie_contents(b.node).dom().contains(pt)
            &&& 0 <= ja2 < a.routes@.len()
            &&& (a.routes@[ja2]).0 == trie_contents(a.node)[pt]
            &&& (b.routes@[jb2]).0 == trie_contents(b.node)[pt]
        } implies match (a.routes@[ja2].1.kind, b.routes@[jb2].1.kind) {
        (EndpointKind::MethodRouter(x), EndpointKind::MethodRouter(y)) => !spec_overlaps(x, y),
        _ => false,
    } by {
        assert(spec_has_pattern(a, pt));
        if jb2 == jb {
            assert(trie_contents(b.node)[pt] == id_b);
            let ib2 = choose|i: int|
                0 <= i < b.paths@.len() && (#[trigger] b.paths@[i]).1@ == pt && b.paths@[i].0
                    == trie_contents(b.node)[pt];
            assert(ib2 == i_b);
            assert(pt == pat);
            // but this side's trie holds pt while its pattern list does not
            let ia = choose|i: int|
                0 <= i < a.paths@.len() && (#[trigger] a.paths@[i]).1@ == pt && a.paths@[i].0
                    == trie_contents(a.node)[pt];
            assert(false);
        }
    }
}


impl<T: Clone> PathRouter<T> {
    /// Mounts every route of another registry under a prefix: each inner
    /// pattern is re-registered as the joined pattern, and the prefix is
    /// recorded for stripping before the inner endpoint runs. An inner
    /// endpoint whose joined pattern is fresh and unambiguous arrives
    /// unchanged behind the recorded prefix; every error names a
    /// condition that actually held.
    #[verifier::loop_isolation(false)]
    pub fn nest(&mut self, prefix: &String, other: PathRouter<T>) -> (r: Result<(), RouterError>)
        requires
            old(self).wf(),
            other.wf(),
            prefix@.len() > 0,
            prefix@[0] == '/',
            !prefix@.contains('*'),
        ensures
            final(self).wf(),
            r is Ok ==> {
                &&& forall|p: Seq<char>|
                    #[trigger] trie_contents(old(self).node).dom().contains(p) ==> trie_contents(
                        final(self).node,
                    ).dom().contains(p)
                &&& forall|p: Seq<char>|
                    #[trigger] trie_contents(other.node).dom().contains(p) ==> trie_contents(
                        final(self).node,
                    ).dom().contains(spec_nested_path(prefix@, p))
                &&& forall|p: Seq<char>, ep: Endpoint<T>|
                    ({
                        &&& #[trigger] spec_has_route(other, p, ep)
                        &&& !trie_contents(old(self).node).dom().contains(
                            spec_nested_path(prefix@, p),
                        )
                        &&& forall|p2: Seq<char>|
                            #[trigger] trie_contents(other.node).dom().contains(p2) && p2 != p
                                ==> spec_nested_path(prefix@, p2) != spec_nested_path(prefix@, p)
                    }) ==> spec_nested_route(*final(self), prefix@, p, ep)
            },
            r matches Err(e) ==> match e {
                RouterError::RouteIdExhausted => final(self).prev_route_id == u32::MAX,
                RouterError::TooManyParameters => exists|p: Seq<char>|
                    #[trigger] trie_contents(other.node).dom().contains(p) && spec_count_char(
                        spec_nested_path(prefix@, p),
                        ':',
                    ) > MAX_PATTERN_PARAMS,
                RouterError::Pattern(_) => exists|p: Seq<char>|
                    #[trigger] trie_contents(other.node).dom().contains(p) && (!trie_accepts(
                        final(self).node,
                        spec_nested_path(prefix@, p),
                    ) || spec_plain_occupant(*final(self), spec_nested_path(prefix@, p))),
                RouterError::Method(me) => (match me {
                    MethodRouterError::OverlappingMethodRoute { method: _, path: p } => p,
                    MethodRouterError::OverlappingFallback { path: p } => p,
                }) matches Some(pp) && exists|p: Seq<char>|
                    #[trigger] trie_contents(other.node).dom().contains(p) && pp@
                        == spec_nested_path(prefix@, p),
                _ => false,
            },
    {
        let ghost other0 = other;
        let PathRouter { node: _, paths: other_paths, routes: mut other_routes, prev_route_id: _ } =
            other;
        proof {
            assert(other_routes@ =~= other0.routes@.subrange(0, other_routes@.len() as int));
        }
        while other_routes.len() > 0
            invariant
                self.wf(),
                other_paths == other0.paths,
                other_routes@.len() <= other0.routes@.len(),
                other_routes@ == other0.routes@.subrange(0, other_routes@.len() as int),
                forall|p: Seq<char>|
                    #[trigger] trie_contents(old(self).node).dom().contains(p) ==> trie_contents(
                        self.node,
                    ).dom().contains(p),
                forall|p: Seq<char>|
                    #[trigger] trie_contents(other0.node).dom().contains(p) ==> (trie_contents(
                        self.node,
                    ).dom().contains(spec_nested_path(prefix@, p)) || spec_pending_id(
                        other0,
                        other_routes@.len() as int,
                        p,
                    )),
                forall|p: Seq<char>, ep: Endpoint<T>|
                    ({
                        &&& #[trigger] spec_has_route(other0, p, ep)
                        &&& !trie_contents(old(self).node).dom().contains(
                            spec_nested_path(prefix@, p),
                        )
                        &&& forall|p2: Seq<char>|
                            #[trigger] trie_contents(other0.node).dom().contains(p2) && p2 != p
                                ==> spec_nested_path(prefix@, p2) != spec_nested_path(prefix@, p)
                    }) ==> (spec_nested_route(*self, prefix@, p, ep) || spec_pending_ep(
                        other0,
                        other_routes@.len() as int,
                        p,
                        ep,
                    )),
                forall|q: Seq<char>|
                    #[trigger] trie_contents(self.node).dom().contains(q) ==> trie_contents(
                        old(self).node,
                    ).dom().contains(q) || (exists|p2: Seq<char>|
                        #[trigger] trie_contents(other0.node).dom().contains(p2)
                            && !spec_pending_id(other0, other_routes@.len() as int, p2) && q
                            == spec_nested_path(prefix@, p2)),
            decreases other_routes@.len(),
        {
            let ghost routes_before = other_routes@;
            let ghost k = other_routes@.len() - 1;
            let next = other_routes.pop();
            match next {
                Some((id, ep)) => {
                    let ghost ep0 = ep;
                    proof {
                        assert(routes_before == other0.routes@.subrange(
                            0,
                            routes_before.len() as int,
                        ));
                        assert(routes_before.last() == other0.routes@[k]);
                        assert(other0.routes@[k].0 == id);
                        assert(other0.routes@[k].1 == ep0);
                        assert(other_routes@ =~= other0.routes@.subrange(
                            0,
                            other_routes@.len() as int,
                        ));
                    }
                    let pat = match find_path_in(&other_paths, id) {
                        Some(p) => p.clone(),
                        None => {
                            proof {
                                assert(spec_ids_has(other_paths@, routes_before.last().0));
                            }
                            vstd::pervasive::unreached()
                        }
                    };
                    proof {
                        let i2 = choose|i2: int|
                            0 <= i2 < other_paths@.len() && (#[trigger] other_paths@[i2]).0 == id
                                && other_paths@[i2].1@ == pat@;
                        assert(trie_contents(other0.node).contains_pair(pat@, id));
                        assert forall|j: int|
                            0 <= j < k implies (#[trigger] other0.routes@[j]).0 != id by {
                            assert(other0.routes@[k].0 == id);
                        }
                        assert(!spec_pending_id(other0, k, pat@));
                    }
                    let full = path_for_nested_route(prefix, &pat);
                    proof {
                        assert(full@.len() > 0);
                        assert(full@[0] == '/');
                    }
                    let Endpoint { kind, strips } = ep;
                    let mut strips = strips;
                    strips.insert(0, prefix.clone());
                    proof {
                        assert(strs_view(strips@) =~= seq![prefix@] + strs_view(ep0.strips@));
                    }
                    let ghost self_pre = *self;
                    let outcome = match kind {
                        EndpointKind::MethodRouter(mr) => self.route_with_strips(
                            &full,
                            mr,
                            strips,
                        ),
                        EndpointKind::Route(svc) => self.route_endpoint(
                            &full,
                            Endpoint { kind: EndpointKind::Route(svc), strips },
                        ),
                    };
                    match outcome {
                        Ok(()) => {
                            proof {
                                assert(trie_contents(self.node).dom().contains(full@));
                                if !trie_contents(self_pre.node).dom().contains(full@) {
                                    let last = self_pre.routes@.len() as int;
                                    assert(self.routes@[last].0 == trie_contents(
                                        self.node,
                                    )[full@]);
                                    assert(self.routes@[last].1.kind == ep0.kind);
                                    assert(strs_view(self.routes@[last].1.strips@) == seq![prefix@]
                                        + strs_view(ep0.strips@));
                                    assert(spec_nested_route(*self, prefix@, pat@, ep0));
                                }
                                lemma_nest_step_preserves(
                                    *old(self),
                                    other0,
                                    self_pre,
                                    *self,
                                    prefix@,
                                    pat@,
                                    id,
                                    ep0,
                                    k,
                                );
                            }
                        }
                        Err(e) => {
                            return Err(e);
                        }
                    }
                }
                None => {
                    vstd::pervasive::unreached()
                }
            }
        }
        proof {
            assert forall|p: Seq<char>|
                #[trigger] trie_contents(other0.node).dom().contains(p) implies trie_contents(
                self.node,
            ).dom().contains(spec_nested_path(prefix@, p)) by {
                if !trie_contents(self.node).dom().contains(spec_nested_path(prefix@, p)) {
                    assert(spec_pending_id(other0, 0, p));
                    let j = choose|j: int|
                        0 <= j < 0 && (#[trigger] other0.routes@[j]).0 == trie_contents(
                            other0.node,
                        )[p];
                    assert(false);
                }
            }
        }
        Ok(())
    }

    /// Mounts one service under a prefix: the service answers the prefix
    /// itself, the prefix with a trailing slash, and everything below it,
    /// with the prefix stripped before it runs.
    pub fn nest_service(&mut self, prefix: &String, svc: T) -> (r: Result<(), RouterError>)
        requires
            old(self).wf(),
            prefix@.len() > 0,
            prefix@[0] == '/',
            !prefix@.contains('*'),
        ensures
            final(self).wf(),
            r is Ok ==> {
                &&& spec_serves(*final(self), spec_nest_wild(prefix@), svc, prefix@)
                &&& spec_serves(*final(self), prefix@, svc, prefix@)
                &&& (prefix@.last() != '/' ==> spec_serves(
                    *final(self),
                    prefix@ + seq!['/'],
                    svc,
                    prefix@,
                ))
                &&& forall|p: Seq<char>|
                    #[trigger] trie_contents(old(self).node).dom().contains(p) ==> trie_contents(
                        final(self).node,
                    ).dom().contains(p)
            },
            r matches Err(e) ==> match e {
                RouterError::RouteIdExhausted => final(self).prev_route_id == u32::MAX,
                RouterError::TooManyParameters => spec_count_char(spec_nest_wild(prefix@), ':')
                    > MAX_PATTERN_PARAMS || spec_count_char(prefix@, ':') > MAX_PATTERN_PARAMS
                    || spec_count_char(prefix@ + seq!['/'], ':') > MAX_PATTERN_PARAMS,
                RouterError::Pattern(_) => !trie_accepts(
                    final(self).node,
                    spec_nest_wild(prefix@),
                ) || !trie_accepts(final(self).node, prefix@) || !trie_accepts(
                    final(self).node,
                    prefix@ + seq!['/'],
                ),
                _ => false,
            },
    {
        let pc = chars_of(prefix.as_str());
        let tail = chars_of(crate::url_params::NEST_TAIL_PARAM);
        let ends_slash = pc[pc.len() - 1] == '/';
        let mut wild: Vec<char> = pc.clone();
        proof {
            assert(wild@ =~= prefix@);
        }
        if !ends_slash {
            wild.push('/');
        }
        wild.push('*');
        chars_extend(&mut wild, &tail);
        proof {
            reveal_strlit("__private__nest_tail_param");
            assert(crate::url_params::NEST_TAIL_PARAM@.len() == 26);
            if ends_slash {
                assert(wild@ =~= spec_nest_wild(prefix@));
            } else {
                assert(wild@ =~= spec_nest_wild(prefix@));
            }
            assert(wild@.len() > prefix@.len() + 1);
            assert(wild@[0] == '/');
        }
        let wild_path = string_of(&wild);
        let mut strips: Vec<String> = Vec::new();
        strips.push(prefix.clone());
        proof {
            assert(strs_view(strips@) =~= seq![prefix@]);
        }
        let ep1 = Endpoint { kind: EndpointKind::Route(svc.clone()), strips };
        match self.route_endpoint(&wild_path, ep1) {
            Ok(()) => {}
            Err(e) => {
                return Err(e);
            }
        }
        let ghost after1 = *self;
        proof {
            assert(spec_serves(after1, spec_nest_wild(prefix@), svc, prefix@));
        }
        let mut strips2: Vec<String> = Vec::new();
        strips2.push(prefix.clone());
        proof {
            assert(strs_view(strips2@) =~= seq![prefix@]);
        }
        let ep2 = Endpoint { kind: EndpointKind::Route(svc.clone()), strips: strips2 };
        match self.route_endpoint(prefix, ep2) {
            Ok(()) => {}
            Err(e) => {
                return Err(e);
            }
        }
        let ghost after2 = *self;
        proof {
            assert(spec_serves(after2, prefix@, svc, prefix@));
            assert(spec_serves(after2, spec_nest_wild(prefix@), svc, prefix@));
        }
        if !ends_slash {
            let mut slashed = pc.clone();
            proof {
                assert(slashed@ =~= prefix@);
            }
            slashed.push('/');
            proof {
                assert(slashed@ =~= prefix@ + seq!['/']);
                assert(slashed@.len() == prefix@.len() + 1);
                assert(slashed@[0] == '/');
            }
            let slashed_path = string_of(&slashed);
            let mut strips3: Vec<String> = Vec::new();
            strips3.push(prefix.clone());
            proof {
                assert(strs_view(strips3@) =~= seq![prefix@]);
            }
            let ep3 = Endpoint { kind: EndpointKind::Route(svc), strips: strips3 };
            match self.route_endpoint(&slashed_path, ep3) {
                Ok(()) => {}
                Err(e) => {
                    return Err(e);
                }
            }
            proof {
                assert(spec_serves(*self, prefix@ + seq!['/'], svc, prefix@));
                assert(spec_serves(*self, prefix@, svc, prefix@));
                assert(spec_serves(*self, spec_nest_wild(prefix@), svc, prefix@));
            }
        }
        Ok(())
    }

}


/// How a layered endpoint relates to the one it came from: same mount
/// prefixes, and each held service replaced by the transform's output.
pub open spec fn spec_endpoint_layered<T, T2, F: Fn(T) -> T2>(
    a: Endpoint<T>,
    b: Endpoint<T2>,
    f: F,
) -> bool {
    &&& strs_view(b.strips@) == strs_view(a.strips@)
    &&& match (a.kind, b.kind) {
        (EndpointKind::MethodRouter(ma), EndpointKind::MethodRouter(mb)) => {
            &&& forall|m: crate::method::Method|
                match (ma.spec_slot(m), #[trigger] mb.spec_slot(m)) {
                    (Some(x), Some(y)) => f.ensures((x,), y),
                    (None, None) => true,
                    _ => false,
                }
            &&& match (ma.fallback, mb.fallback) {
                (Some(x), Some(y)) => f.ensures((x,), y),
                (None, None) => true,
                _ => false,
            }
            &&& crate::method_routing::spec_allow_state(mb.allow_header)
                == crate::method_routing::spec_allow_state(ma.allow_header)
        },
        (EndpointKind::Route(x), EndpointKind::Route(y)) => f.ensures((x,), y),
        _ => false,
    }
}

/// Applies a transform to every service an endpoint holds.
fn layer_endpoint<T, T2, F: Fn(T) -> T2>(ep: Endpoint<T>, f: &F) -> (r: Endpoint<T2>)
    requires
        forall|t: T| #[trigger] f.requires((t,)),
    ensures
        spec_endpoint_layered(ep, r, *f),
{
    let Endpoint { kind, strips } = ep;
    let kind = match kind {
        EndpointKind::MethodRouter(mr) => EndpointKind::MethodRouter(mr.layer(f)),
        EndpointKind::Route(svc) => EndpointKind::Route(f(svc)),
    };
    let r = Endpoint { kind, strips };
    proof {
        assert(strs_view(r.strips@) =~= strs_view(ep.strips@));
    }
    r
}

impl<T> PathRouter<T> {
    /// Wraps every registered endpoint in a middleware transform: the
    /// patterns, identifiers and mount prefixes are untouched, and each
    /// endpoint is the transform of the old one.
    pub fn layer<T2, F: Fn(T) -> T2>(self, f: &F) -> (r: PathRouter<T2>)
        requires
            self.wf(),
            forall|t: T| #[trigger] f.requires((t,)),
        ensures
            r.wf(),
            trie_contents(r.node) == trie_contents(self.node),
            r.paths == self.paths,
            r.prev_route_id == self.prev_route_id,
            r.routes@.len() == self.routes@.len(),
            forall|j: int|
                0 <= j < self.routes@.len() ==> (#[trigger] r.routes@[j]).0 == self.routes@[j].0
                    && spec_endpoint_layered(self.routes@[j].1, r.routes@[j].1, *f),
    {
        let PathRouter { node, paths, routes, prev_route_id } = self;
        let ghost orig = routes@;
        let mut routes = routes;
        let mut out: Vec<(u32, Endpoint<T2>)> = Vec::new();
        while routes.len() > 0
            invariant
                forall|t: T| #[trigger] f.requires((t,)),
                out@.len() + routes@.len() == orig.len(),
                forall|k: int| 0 <= k < routes@.len() ==> routes@[k] == orig[k + out@.len()],
                forall|k: int|
                    0 <= k < out@.len() ==> (#[trigger] out@[k]).0 == orig[k].0
                        && spec_endpoint_layered(orig[k].1, out@[k].1, *f),
            decreases routes@.len(),
        {
            let (id, ep) = routes.remove(0);
            out.push((id, layer_endpoint(ep, f)));
        }
        let r = PathRouter { node, paths, routes: out, prev_route_id };
        proof {
            assert forall|i: int, j: int|
                0 <= i < j < r.routes@.len() implies (#[trigger] r.routes@[i]).0 != (
            #[trigger] r.routes@[j]).0 by {
                assert(r.routes@[i].0 == orig[i].0);
                assert(r.routes@[j].0 == orig[j].0);
            }
            assert forall|i: int|
                0 <= i < r.paths@.len() implies spec_ids_has(
                r.routes@,
                (#[trigger] r.paths@[i]).0,
            ) by {
                assert(spec_ids_has(orig, r.paths@[i].0));
                let k = choose|k: int| 0 <= k < orig.len() && (#[trigger] orig[k]).0 == r.paths@[i].0;
                assert(r.routes@[k].0 == r.paths@[i].0);
            }
            assert forall|j: int|
                0 <= j < r.routes@.len() implies spec_ids_has(
                r.paths@,
                (#[trigger] r.routes@[j]).0,
            ) by {
                assert(r.routes@[j].0 == orig[j].0);
                assert(spec_ids_has(r.paths@, orig[j].0));
            }
        }
        r
    }
}

} // verus!

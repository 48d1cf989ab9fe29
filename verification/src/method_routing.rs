//! The per-path method dispatch table: one optional service slot per verb,
//! a fallback slot, and the derived `Allow` value.

use vstd::prelude::*;
use vstd::pervasive::cloned;
use crate::method::Method;
use crate::method_filter::{MethodFilter, spec_method_bit};
use crate::request::Request;
use crate::response::{Response, STATUS_METHOD_NOT_ALLOWED};
use crate::route::{RouteFuture, RouteFutureKind};
use crate::text::{string_of, chars_of};

verus! {

/// A configuration error reported while a method table is being built.
#[derive(Debug)]
pub enum MethodRouterError {
    /// A verb was registered twice for the same path.
    OverlappingMethodRoute { method: Method, path: Option<String> },
    /// Two merged tables both carry a fallback.
    OverlappingFallback { path: Option<String> },
}

/// The derived `Allow` state of a method table.
#[derive(Debug)]
pub enum AllowHeader {
    /// No verb has been recorded yet.
    Empty,
    /// The table never attaches an `Allow` value.
    Skip,
    /// The verbs recorded so far, in registration order, without
    /// duplicates.
    Tokens(Vec<String>),
}

/// The token list of an `Allow` state, where one exists: `None` stands
/// for a table that never attaches the header.
pub open spec fn spec_allow_state(a: AllowHeader) -> Option<Seq<Seq<char>>> {
    match a {
        AllowHeader::Empty => Some(Seq::empty()),
        AllowHeader::Skip => None,
        AllowHeader::Tokens(v) => Some(v.deep_view()),
    }
}

/// A token list extended by one token, unless already present.
pub open spec fn spec_append_token(t: Seq<Seq<char>>, tok: Seq<char>) -> Seq<Seq<char>> {
    if t.contains(tok) {
        t
    } else {
        t.push(tok)
    }
}

/// A token list extended by several tokens in order, each only if absent.
pub open spec fn spec_append_tokens(t: Seq<Seq<char>>, toks: Seq<Seq<char>>) -> Seq<Seq<char>>
    decreases toks.len(),
{
    if toks.len() == 0 {
        t
    } else {
        spec_append_tokens(spec_append_token(t, toks[0]), toks.drop_first())
    }
}

/// The `Allow` tokens after one registration: the names of the verbs the
/// filter covers are recorded in a fixed order, each unless already
/// present. A `GET` registration also serves `HEAD`, so it records both
/// names.
pub open spec fn spec_allow_after_on(t: Seq<Seq<char>>, filter: MethodFilter) -> Seq<Seq<char>> {
    let t = if filter.spec_has(Method::Get) {
        spec_append_token(spec_append_token(t, "GET"@), "HEAD"@)
    } else {
        t
    };
    let t = if filter.spec_has(Method::Head) {
        spec_append_token(t, "HEAD"@)
    } else {
        t
    };
    let t = if filter.spec_has(Method::Trace) {
        spec_append_token(t, "TRACE"@)
    } else {
        t
    };
    let t = if filter.spec_has(Method::Put) {
        spec_append_token(t, "PUT"@)
    } else {
        t
    };
    let t = if filter.spec_has(Method::Post) {
        spec_append_token(t, "POST"@)
    } else {
        t
    };
    let t = if filter.spec_has(Method::Patch) {
        spec_append_token(t, "PATCH"@)
    } else {
        t
    };
    let t = if filter.spec_has(Method::Options) {
        spec_append_token(t, "OPTIONS"@)
    } else {
        t
    };
    let t = if filter.spec_has(Method::Delete) {
        spec_append_token(t, "DELETE"@)
    } else {
        t
    };
    t
}

/// The `Allow` state of two merged tables: a side that never attaches the
/// header wins; otherwise the token lists are concatenated. Merging only
/// succeeds when no verb is registered on both sides, so concatenation
/// introduces no duplicate.
pub open spec fn spec_allow_merge(a: Option<Seq<Seq<char>>>, b: Option<Seq<Seq<char>>>) -> Option<
    Seq<Seq<char>>,
> {
    match (a, b) {
        (Some(x), Some(y)) => Some(x + y),
        _ => None,
    }
}

/// The comma-joined rendering of a token list.
pub open spec fn spec_join(l: Seq<Seq<char>>) -> Seq<char>
    decreases l.len(),
{
    if l.len() == 0 {
        Seq::empty()
    } else if l.len() == 1 {
        l[0]
    } else {
        spec_join(l.drop_last()) + seq![','] + l.last()
    }
}

/// The `Allow` value a table attaches on fallback dispatch, if any.
pub open spec fn spec_allow_value(a: AllowHeader) -> Option<Seq<char>> {
    match spec_allow_state(a) {
        Some(toks) => Some(spec_join(toks)),
        None => None,
    }
}

/// Joins a token list with commas.
pub fn join_tokens(v: &Vec<String>) -> (s: String)
    ensures
        s@ == spec_join(v.deep_view()),
{
    let mut acc: Vec<char> = Vec::new();
    let mut i: usize = 0;
    while i < v.len()
        invariant
            0 <= i <= v.len(),
            acc@ == spec_join(v.deep_view().subrange(0, i as int)),
        decreases v.len() - i,
    {
        let ghost prefix = v.deep_view().subrange(0, i as int);
        proof {
            assert(v.deep_view().subrange(0, i as int + 1).drop_last() =~= prefix);
            assert(v.deep_view().subrange(0, i as int + 1).last() == v.deep_view()[i as int]);
        }
        let chars = chars_of(v[i].as_str());
        if i == 0 {
            acc = chars;
        } else {
            acc.push(',');
            let mut j: usize = 0;
            let ghost mid = acc@;
            while j < chars.len()
                invariant
                    0 <= j <= chars.len(),
                    acc@ == mid + chars@.subrange(0, j as int),
                decreases chars.len() - j,
            {
                acc.push(chars[j]);
                proof {
                    assert(acc@ =~= mid + chars@.subrange(0, j as int + 1));
                }
                j = j + 1;
            }
            proof {
                assert(chars@.subrange(0, chars@.len() as int) =~= chars@);
                assert(acc@ =~= spec_join(prefix) + seq![','] + v.deep_view()[i as int]);
                assert(acc@ =~= spec_join(v.deep_view().subrange(0, i as int + 1)));
            }
        }
        proof {
            if i == 0 {
                assert(v.deep_view().subrange(0, 1) =~= seq![v.deep_view()[0]]);
            }
        }
        i = i + 1;
    }
    proof {
        assert(v.deep_view().subrange(0, v.deep_view().len() as int) =~= v.deep_view());
    }
    string_of(&acc)
}

/// Records one more verb name in the `Allow` state: absorbed when the
/// state is `Skip` or already lists the name, appended otherwise.
pub fn append_allow_header(allow: &mut AllowHeader, method: &'static str)
    ensures
        match spec_allow_state(*old(allow)) {
            None => spec_allow_state(*final(allow)) is None,
            Some(toks) => spec_allow_state(*final(allow)) == Some(
                spec_append_token(toks, method@),
            ),
        },
{
    match allow {
        AllowHeader::Empty => {
            let mut v: Vec<String> = Vec::new();
            v.push(method.to_owned());
            proof {
                assert(v.deep_view() =~= spec_append_token(Seq::empty(), method@));
            }
            *allow = AllowHeader::Tokens(v);
        }
        AllowHeader::Skip => {}
        AllowHeader::Tokens(v) => {
            let ghost toks = v.deep_view();
            let mut present = false;
            let mut i: usize = 0;
            let name: String = method.to_owned();
            while i < v.len()
                invariant
                    0 <= i <= v.len(),
                    name@ == method@,
                    toks == v.deep_view(),
                    present == exists|j: int| 0 <= j < i && toks[j] == method@,
                decreases v.len() - i,
            {
                proof {
                    assert(toks[i as int] == v@[i as int]@);
                }
                if v[i] == name {
                    present = true;
                }
                i = i + 1;
            }
            proof {
                assert(present == toks.contains(method@));
            }
            if !present {
                v.push(name);
                proof {
                    assert(v.deep_view() =~= toks.push(method@));
                }
            }
        }
    }
}

/// A per-path dispatch table: one optional service per verb, an optional
/// fallback service, and the derived `Allow` state.
///
/// An empty slot means the verb is not registered; a request for it goes
/// to the fallback, or to the built-in "method not allowed" response.
#[derive(Debug)]
pub struct MethodRouter<T> {
    pub get: Option<T>,
    pub head: Option<T>,
    pub post: Option<T>,
    pub put: Option<T>,
    pub delete: Option<T>,
    pub patch: Option<T>,
    pub options: Option<T>,
    pub trace: Option<T>,
    pub fallback: Option<T>,
    pub allow_header: AllowHeader,
}

impl<T> MethodRouter<T> {
    /// The slot for a verb.
    pub open spec fn spec_slot(self, m: Method) -> Option<T> {
        match m {
            Method::Get => self.get,
            Method::Head => self.head,
            Method::Post => self.post,
            Method::Put => self.put,
            Method::Delete => self.delete,
            Method::Patch => self.patch,
            Method::Options => self.options,
            Method::Trace => self.trace,
        }
    }

    /// Which slot serves a request verb: `HEAD` falls back to the `GET`
    /// slot when no explicit `HEAD` slot exists; every other verb is
    /// served by its own slot or not at all.
    pub open spec fn spec_selected(self, m: Method) -> Option<Method> {
        if m == Method::Head {
            if self.head is Some {
                Some(Method::Head)
            } else if self.get is Some {
                Some(Method::Get)
            } else {
                None
            }
        } else if self.spec_slot(m) is Some {
            Some(m)
        } else {
            None
        }
    }

    /// An empty table: nothing registered, no fallback, no `Allow` tokens.
    pub fn new() -> (r: Self)
        ensures
            forall|m: Method| r.spec_slot(m) is None,
            r.fallback is None,
            spec_allow_state(r.allow_header) == Some(Seq::<Seq<char>>::empty()),
    {
        MethodRouter {
            get: None,
            head: None,
            post: None,
            put: None,
            delete: None,
            patch: None,
            options: None,
            trace: None,
            fallback: None,
            allow_header: AllowHeader::Empty,
        }
    }

    /// Sets the fallback service, replacing any earlier one.
    pub fn fallback_service(self, svc: T) -> (r: Self)
        ensures
            forall|m: Method| r.spec_slot(m) == self.spec_slot(m),
            r.fallback == Some(svc),
            r.allow_header == self.allow_header,
    {
        MethodRouter { fallback: Some(svc), ..self }
    }

    /// Marks the table as never attaching an `Allow` value.
    pub fn skip_allow_header(self) -> (r: Self)
        ensures
            forall|m: Method| r.spec_slot(m) == self.spec_slot(m),
            r.fallback == self.fallback,
            spec_allow_state(r.allow_header) is None,
    {
        MethodRouter { allow_header: AllowHeader::Skip, ..self }
    }

    /// Dispatches a request: the slot the verb selects wins, with `HEAD`
    /// served through the `GET` slot (body stripped) when no `HEAD` slot
    /// exists; otherwise the fallback service runs, or the built-in
    /// "method not allowed" response stands, either with the derived
    /// `Allow` value attached.
    pub fn call_with_state<'a>(&'a self, req: Request) -> (r: RouteFuture<&'a T>)
        ensures
            match self.spec_selected(req.method) {
                Some(k) => {
                    &&& r.kind matches RouteFutureKind::Future { service, request } && *service
                        == self.spec_slot(k)->0 && request == req
                    &&& r.strip == (req.method == Method::Head)
                    &&& r.allow is None
                },
                None => {
                    &&& r.strip == false
                    &&& r.spec_allow() == spec_allow_value(self.allow_header)
                    &&& match self.fallback {
                        Some(f) => r.kind matches RouteFutureKind::Future { service, request }
                            && *service == f && request == req,
                        None => r.kind matches RouteFutureKind::Ready { response }
                            && response.status == STATUS_METHOD_NOT_ALLOWED && response.headers@
                            == Seq::<crate::headers::HeaderEntry>::empty() && response.body@
                            == Seq::<u8>::empty(),
                    }
                },
            },
    {
        let m = req.method;
        if m == Method::Head {
            if let Some(svc) = &self.head {
                return RouteFuture::from_future(svc, req).strip_body(true);
            }
            if let Some(svc) = &self.get {
                return RouteFuture::from_future(svc, req).strip_body(true);
            }
        } else {
            match m {
                Method::Get => {
                    if let Some(svc) = &self.get {
                        return RouteFuture::from_future(svc, req);
                    }
                }
                Method::Post => {
                    if let Some(svc) = &self.post {
                        return RouteFuture::from_future(svc, req);
                    }
                }
                Method::Put => {
                    if let Some(svc) = &self.put {
                        return RouteFuture::from_future(svc, req);
                    }
                }
                Method::Delete => {
                    if let Some(svc) = &self.delete {
                        return RouteFuture::from_future(svc, req);
                    }
                }
                Method::Patch => {
                    if let Some(svc) = &self.patch {
                        return RouteFuture::from_future(svc, req);
                    }
                }
                Method::Options => {
                    if let Some(svc) = &self.options {
                        return RouteFuture::from_future(svc, req);
                    }
                }
                Method::Trace => {
                    if let Some(svc) = &self.trace {
                        return RouteFuture::from_future(svc, req);
                    }
                }
                Method::Head => {}
            }
        }
        let future = match &self.fallback {
            Some(f) => RouteFuture::from_future(f, req),
            None => RouteFuture::from_response(Response::new(STATUS_METHOD_NOT_ALLOWED)),
        };
        match &self.allow_header {
            AllowHeader::Skip => future,
            AllowHeader::Empty => future.allow_header(String::new()),
            AllowHeader::Tokens(v) => future.allow_header(join_tokens(v)),
        }
    }
}

/// Whether `out` combines the two tables: each slot comes from whichever
/// side holds it, and the `Allow` token lists are concatenated.
pub open spec fn spec_merged<T>(a: MethodRouter<T>, b: MethodRouter<T>, out: MethodRouter<T>) -> bool {
    &&& forall|m: Method|
        #![all_triggers]
        out.spec_slot(m) == (if a.spec_slot(m) is Some {
            a.spec_slot(m)
        } else {
            b.spec_slot(m)
        })
    &&& out.fallback == (if a.fallback is Some {
        a.fallback
    } else {
        b.fallback
    })
    &&& spec_allow_state(out.allow_header) == spec_allow_merge(
        spec_allow_state(a.allow_header),
        spec_allow_state(b.allow_header),
    )
}

/// Whether the two tables cannot be merged: some verb, or the fallback,
/// is registered on both.
pub open spec fn spec_overlaps<T>(a: MethodRouter<T>, b: MethodRouter<T>) -> bool {
    ||| exists|m: Method| a.spec_slot(m) is Some && b.spec_slot(m) is Some
    ||| (a.fallback is Some && b.fallback is Some)
}

impl<T> MethodRouter<T> {
    /// Reports a verb, or the fallback, registered on both tables, if any.
    pub fn find_overlap(&self, other: &Self) -> (r: Option<MethodRouterError>)
        ensures
            r is Some <==> spec_overlaps(*self, *other),
            match r {
                Some(MethodRouterError::OverlappingMethodRoute { method, path }) => self.spec_slot(
                    method,
                ) is Some && other.spec_slot(method) is Some && path is None,
                Some(MethodRouterError::OverlappingFallback { path }) => self.fallback is Some
                    && other.fallback is Some && path is None,
                None => true,
            },
    {
        if self.get.is_some() && other.get.is_some() {
            return Some(
                MethodRouterError::OverlappingMethodRoute { method: Method::Get, path: None },
            );
        }
        if self.head.is_some() && other.head.is_some() {
            return Some(
                MethodRouterError::OverlappingMethodRoute { method: Method::Head, path: None },
            );
        }
        if self.post.is_some() && other.post.is_some() {
            return Some(
                MethodRouterError::OverlappingMethodRoute { method: Method::Post, path: None },
            );
        }
        if self.put.is_some() && other.put.is_some() {
            return Some(
                MethodRouterError::OverlappingMethodRoute { method: Method::Put, path: None },
            );
        }
        if self.delete.is_some() && other.delete.is_some() {
            return Some(
                MethodRouterError::OverlappingMethodRoute { method: Method::Delete, path: None },
            );
        }
        if self.patch.is_some() && other.patch.is_some() {
            return Some(
                MethodRouterError::OverlappingMethodRoute { method: Method::Patch, path: None },
            );
        }
        if self.options.is_some() && other.options.is_some() {
            return Some(
                MethodRouterError::OverlappingMethodRoute { method: Method::Options, path: None },
            );
        }
        if self.trace.is_some() && other.trace.is_some() {
            return Some(
                MethodRouterError::OverlappingMethodRoute { method: Method::Trace, path: None },
            );
        }
        if self.fallback.is_some() && other.fallback.is_some() {
            return Some(MethodRouterError::OverlappingFallback { path: None });
        }
        proof {
            assert forall|m: Method| !(self.spec_slot(m) is Some && other.spec_slot(m) is Some) by {
                match m {
                    Method::Get => {},
                    Method::Head => {},
                    Method::Post => {},
                    Method::Put => {},
                    Method::Delete => {},
                    Method::Patch => {},
                    Method::Options => {},
                    Method::Trace => {},
                }
            }
        }
        None
    }
}

impl<T: Clone> MethodRouter<T> {
    /// Registers one service for every verb the filter covers. Each such
    /// slot must be empty, else the call fails naming the occupied verb;
    /// the verbs' names are recorded for the `Allow` value.
    pub fn on(self, filter: MethodFilter, svc: T) -> (r: Result<Self, MethodRouterError>)
        ensures
            r is Err <==> exists|m: Method| filter.spec_has(m) && self.spec_slot(m) is Some,
            match r {
                Ok(out) => {
                    &&& forall|m: Method|
                        filter.spec_has(m) ==> (out.spec_slot(m) matches Some(s) && cloned::<T>(
                            svc,
                            s,
                        ))
                    &&& forall|m: Method|
                        !filter.spec_has(m) ==> out.spec_slot(m) == self.spec_slot(m)
                    &&& out.fallback == self.fallback
                    &&& match spec_allow_state(self.allow_header) {
                        None => spec_allow_state(out.allow_header) is None,
                        Some(t) => spec_allow_state(out.allow_header) == Some(
                            spec_allow_after_on(t, filter),
                        ),
                    }
                },
                Err(e) => e matches MethodRouterError::OverlappingMethodRoute { method, path }
                    && filter.spec_has(method) && self.spec_slot(method) is Some && path is None,
            },
    {
        let mut this = self;
        if filter.has(Method::Get) {
            if this.get.is_some() {
                return Err(
                    MethodRouterError::OverlappingMethodRoute { method: Method::Get, path: None },
                );
            }
            this.get = Some(svc.clone());
            append_allow_header(&mut this.allow_header, "GET");
            append_allow_header(&mut this.allow_header, "HEAD");
        }
        if filter.has(Method::Head) {
            if this.head.is_some() {
                return Err(
                    MethodRouterError::OverlappingMethodRoute { method: Method::Head, path: None },
                );
            }
            this.head = Some(svc.clone());
            append_allow_header(&mut this.allow_header, "HEAD");
        }
        if filter.has(Method::Trace) {
            if this.trace.is_some() {
                return Err(
                    MethodRouterError::OverlappingMethodRoute { method: Method::Trace, path: None },
                );
            }
            this.trace = Some(svc.clone());
            append_allow_header(&mut this.allow_header, "TRACE");
        }
        if filter.has(Method::Put) {
            if this.put.is_some() {
                return Err(
                    MethodRouterError::OverlappingMethodRoute { method: Method::Put, path: None },
                );
            }
            this.put = Some(svc.clone());
            append_allow_header(&mut this.allow_header, "PUT");
        }
        if filter.has(Method::Post) {
            if this.post.is_some() {
                return Err(
                    MethodRouterError::OverlappingMethodRoute { method: Method::Post, path: None },
                );
            }
            this.post = Some(svc.clone());
            append_allow_header(&mut this.allow_header, "POST");
        }
        if filter.has(Method::Patch) {
            if this.patch.is_some() {
                return Err(
                    MethodRouterError::OverlappingMethodRoute { method: Method::Patch, path: None },
                );
            }
            this.patch = Some(svc.clone());
            append_allow_header(&mut this.allow_header, "PATCH");
        }
        if filter.has(Method::Options) {
            if this.options.is_some() {
                return Err(
                    MethodRouterError::OverlappingMethodRoute {
                        method: Method::Options,
                        path: None,
                    },
                );
            }
            this.options = Some(svc.clone());
            append_allow_header(&mut this.allow_header, "OPTIONS");
        }
        if filter.has(Method::Delete) {
            if this.delete.is_some() {
                return Err(
                    MethodRouterError::OverlappingMethodRoute {
                        method: Method::Delete,
                        path: None,
                    },
                );
            }
            this.delete = Some(svc.clone());
            append_allow_header(&mut this.allow_header, "DELETE");
        }
        Ok(this)
    }

    /// Combines two tables verb by verb. A verb registered on both sides
    /// is a conflict naming the verb and, when known, the path; so are two
    /// fallbacks. The `Allow` token lists are concatenated.
    pub fn merge_for_path(self, path: Option<&String>, other: Self) -> (r: Result<
        Self,
        MethodRouterError,
    >)
        ensures
            r is Err <==> ((exists|m: Method|
                self.spec_slot(m) is Some && other.spec_slot(m) is Some) || (self.fallback is Some
                && other.fallback is Some)),
            match r {
                Ok(out) => {
                    &&& forall|m: Method|
                        #![all_triggers]
                        out.spec_slot(m) == (if self.spec_slot(m) is Some {
                            self.spec_slot(m)
                        } else {
                            other.spec_slot(m)
                        })
                    &&& out.fallback == (if self.fallback is Some {
                        self.fallback
                    } else {
                        other.fallback
                    })
                    &&& spec_allow_state(out.allow_header) == spec_allow_merge(
                        spec_allow_state(self.allow_header),
                        spec_allow_state(other.allow_header),
                    )
                },
                Err(e) => match e {
                    MethodRouterError::OverlappingMethodRoute { method, path: p } => self.spec_slot(
                        method,
                    ) is Some && other.spec_slot(method) is Some && opt_str_matches(p, path),
                    MethodRouterError::OverlappingFallback { path: p } => self.fallback is Some
                        && other.fallback is Some && opt_str_matches(p, path),
                },
            },
    {
        let get = match merge_slot(self.get, other.get) {
            Ok(o) => o,
            Err(_) => {
                return Err(
                    MethodRouterError::OverlappingMethodRoute {
                        method: Method::Get,
                        path: clone_opt_path(path),
                    },
                );
            }
        };
        let head = match merge_slot(self.head, other.head) {
            Ok(o) => o,
            Err(_) => {
                return Err(
                    MethodRouterError::OverlappingMethodRoute {
                        method: Method::Head,
                        path: clone_opt_path(path),
                    },
                );
            }
        };
        let delete = match merge_slot(self.delete, other.delete) {
            Ok(o) => o,
            Err(_) => {
                return Err(
                    MethodRouterError::OverlappingMethodRoute {
                        method: Method::Delete,
                        path: clone_opt_path(path),
                    },
                );
            }
        };
        let options = match merge_slot(self.options, other.options) {
            Ok(o) => o,
            Err(_) => {
                return Err(
                    MethodRouterError::OverlappingMethodRoute {
                        method: Method::Options,
                        path: clone_opt_path(path),
                    },
                );
            }
        };
        let patch = match merge_slot(self.patch, other.patch) {
            Ok(o) => o,
            Err(_) => {
                return Err(
                    MethodRouterError::OverlappingMethodRoute {
                        method: Method::Patch,
                        path: clone_opt_path(path),
                    },
                );
            }
        };
        let post = match merge_slot(self.post, other.post) {
            Ok(o) => o,
            Err(_) => {
                return Err(
                    MethodRouterError::OverlappingMethodRoute {
                        method: Method::Post,
                        path: clone_opt_path(path),
                    },
                );
            }
        };
        let put = match merge_slot(self.put, other.put) {
            Ok(o) => o,
            Err(_) => {
                return Err(
                    MethodRouterError::OverlappingMethodRoute {
                        method: Method::Put,
                        path: clone_opt_path(path),
                    },
                );
            }
        };
        let trace = match merge_slot(self.trace, other.trace) {
            Ok(o) => o,
            Err(_) => {
                return Err(
                    MethodRouterError::OverlappingMethodRoute {
                        method: Method::Trace,
                        path: clone_opt_path(path),
                    },
                );
            }
        };
        let fallback = match merge_slot(self.fallback, other.fallback) {
            Ok(o) => o,
            Err(_) => {
                return Err(
                    MethodRouterError::OverlappingFallback { path: clone_opt_path(path) },
                );
            }
        };
        let allow_header = merge_allow(self.allow_header, other.allow_header);
        Ok(
            MethodRouter {
                get,
                head,
                post,
                put,
                delete,
                patch,
                options,
                trace,
                fallback,
                allow_header,
            },
        )
    }

    /// Combines two tables; any verb registered on both sides is a
    /// conflict.
    pub fn merge(self, other: Self) -> (r: Result<Self, MethodRouterError>)
        ensures
            r is Err <==> ((exists|m: Method|
                self.spec_slot(m) is Some && other.spec_slot(m) is Some) || (self.fallback is Some
                && other.fallback is Some)),
            match r {
                Ok(out) => {
                    &&& forall|m: Method|
                        #![all_triggers]
                        out.spec_slot(m) == (if self.spec_slot(m) is Some {
                            self.spec_slot(m)
                        } else {
                            other.spec_slot(m)
                        })
                    &&& out.fallback == (if self.fallback is Some {
                        self.fallback
                    } else {
                        other.fallback
                    })
                    &&& spec_allow_state(out.allow_header) == spec_allow_merge(
                        spec_allow_state(self.allow_header),
                        spec_allow_state(other.allow_header),
                    )
                },
                Err(e) => match e {
                    MethodRouterError::OverlappingMethodRoute { method, path: p } => self.spec_slot(
                        method,
                    ) is Some && other.spec_slot(method) is Some && p is None,
                    MethodRouterError::OverlappingFallback { path: p } => self.fallback is Some
                        && other.fallback is Some && p is None,
                },
            },
    {
        self.merge_for_path(None, other)
    }
}

/// Whether a reported path names the same path the caller passed.
pub open spec fn opt_str_matches(p: Option<String>, q: Option<&String>) -> bool {
    match (p, q) {
        (Some(a), Some(b)) => a@ == b@,
        (None, None) => true,
        _ => false,
    }
}

fn clone_opt_path(path: Option<&String>) -> (r: Option<String>)
    ensures
        opt_str_matches(r, path),
{
    match path {
        Some(p) => Some(p.clone()),
        None => None,
    }
}

/// One slot of a merge: at most one side may be occupied.
fn merge_slot<T>(a: Option<T>, b: Option<T>) -> (r: Result<Option<T>, ()>)
    ensures
        match r {
            Ok(o) => (a is None || b is None) && o == (if a is Some {
                a
            } else {
                b
            }),
            Err(_) => a is Some && b is Some,
        },
{
    match (a, b) {
        (Some(x), Some(_)) => Err(()),
        (Some(x), None) => Ok(Some(x)),
        (None, y) => Ok(y),
    }
}

/// The `Allow` state of a merge: `Skip` wins, token lists concatenate.
fn merge_allow(a: AllowHeader, b: AllowHeader) -> (r: AllowHeader)
    ensures
        spec_allow_state(r) == spec_allow_merge(spec_allow_state(a), spec_allow_state(b)),
{
    match (a, b) {
        (AllowHeader::Skip, _) => AllowHeader::Skip,
        (_, AllowHeader::Skip) => AllowHeader::Skip,
        (AllowHeader::Empty, AllowHeader::Empty) => {
            proof {
                assert(Seq::<Seq<char>>::empty() + Seq::<Seq<char>>::empty() =~= Seq::<
                    Seq<char>,
                >::empty());
            }
            AllowHeader::Empty
        }
        (AllowHeader::Empty, AllowHeader::Tokens(v)) => {
            proof {
                assert(Seq::<Seq<char>>::empty() + v.deep_view() =~= v.deep_view());
            }
            AllowHeader::Tokens(v)
        }
        (AllowHeader::Tokens(v), AllowHeader::Empty) => {
            proof {
                assert(v.deep_view() + Seq::<Seq<char>>::empty() =~= v.deep_view());
            }
            AllowHeader::Tokens(v)
        }
        (AllowHeader::Tokens(mut v), AllowHeader::Tokens(w)) => {
            let ghost a_toks = v.deep_view();
            let ghost b_toks = w.deep_view();
            let mut w = w;
            v.append(&mut w);
            proof {
                assert(v.deep_view() =~= a_toks + b_toks);
            }
            AllowHeader::Tokens(v)
        }
    }
}


/// A table with one service registered for the verbs of a filter.
pub fn on<T: Clone>(filter: MethodFilter, svc: T) -> (r: Result<MethodRouter<T>, MethodRouterError>)
    ensures
        r matches Ok(out) && (forall|m: Method|
            filter.spec_has(m) ==> ((#[trigger] out.spec_slot(m)) matches Some(s) && cloned::<T>(
                svc,
                s,
            ))) && (forall|m: Method| !filter.spec_has(m) ==> out.spec_slot(m) is None)
            && out.fallback is None && spec_allow_state(out.allow_header) == Some(
            spec_allow_after_on(Seq::empty(), filter),
        ),
{
    let r = MethodRouter::new().on(filter, svc);
    match r {
        Ok(out) => Ok(out),
        Err(_) => vstd::pervasive::unreached(),
    }
}

/// A table whose fallback serves every verb, with no `Allow` value.
pub fn any<T>(svc: T) -> (r: MethodRouter<T>)
    ensures
        forall|m: Method| r.spec_slot(m) is None,
        r.fallback == Some(svc),
        spec_allow_state(r.allow_header) is None,
{
    MethodRouter::new().fallback_service(svc).skip_allow_header()
}

/// A table serving `GET` (and so `HEAD`) with the given service.
pub fn get<T: Clone>(svc: T) -> (r: MethodRouter<T>)
    ensures
        r.spec_slot(Method::Get) matches Some(s) && cloned::<T>(svc, s),
        forall|m: Method| m != Method::Get ==> r.spec_slot(m) is None,
        r.fallback is None,
        spec_allow_state(r.allow_header) == Some(seq!["GET"@, "HEAD"@]),
{
    let out = method_helper(Method::Get, svc);
    proof {
        lemma_single_bit_filter(Method::Get);
        reveal_strlit("GET");
        reveal_strlit("HEAD");
        assert(!Seq::<Seq<char>>::empty().contains("GET"@));
        assert("GET"@.len() != "HEAD"@.len());
        assert(!seq!["GET"@].contains("HEAD"@));
        assert(spec_allow_after_on(Seq::empty(), MethodFilter(spec_method_bit(Method::Get)))
            =~= seq!["GET"@, "HEAD"@]);
    }
    out
}

/// A table serving `POST` with the given service.
pub fn post<T: Clone>(svc: T) -> (r: MethodRouter<T>)
    ensures
        r.spec_slot(Method::Post) matches Some(s) && cloned::<T>(svc, s),
        forall|m: Method| m != Method::Post ==> r.spec_slot(m) is None,
        r.fallback is None,
        spec_allow_state(r.allow_header) == Some(seq!["POST"@]),
{
    let out = method_helper(Method::Post, svc);
    proof {
        lemma_single_bit_filter(Method::Post);
        assert(!Seq::<Seq<char>>::empty().contains("POST"@));
        assert(spec_allow_after_on(Seq::empty(), MethodFilter(spec_method_bit(Method::Post)))
            =~= seq!["POST"@]);
    }
    out
}

/// A table serving `PUT` with the given service.
pub fn put<T: Clone>(svc: T) -> (r: MethodRouter<T>)
    ensures
        r.spec_slot(Method::Put) matches Some(s) && cloned::<T>(svc, s),
        forall|m: Method| m != Method::Put ==> r.spec_slot(m) is None,
        r.fallback is None,
        spec_allow_state(r.allow_header) == Some(seq!["PUT"@]),
{
    let out = method_helper(Method::Put, svc);
    proof {
        lemma_single_bit_filter(Method::Put);
        assert(!Seq::<Seq<char>>::empty().contains("PUT"@));
        assert(spec_allow_after_on(Seq::empty(), MethodFilter(spec_method_bit(Method::Put)))
            =~= seq!["PUT"@]);
    }
    out
}

/// A table serving `DELETE` with the given service.
pub fn delete<T: Clone>(svc: T) -> (r: MethodRouter<T>)
    ensures
        r.spec_slot(Method::Delete) matches Some(s) && cloned::<T>(svc, s),
        forall|m: Method| m != Method::Delete ==> r.spec_slot(m) is None,
        r.fallback is None,
        spec_allow_state(r.allow_header) == Some(seq!["DELETE"@]),
{
    let out = method_helper(Method::Delete, svc);
    proof {
        lemma_single_bit_filter(Method::Delete);
        assert(!Seq::<Seq<char>>::empty().contains("DELETE"@));
        assert(spec_allow_after_on(Seq::empty(), MethodFilter(spec_method_bit(Method::Delete)))
            =~= seq!["DELETE"@]);
    }
    out
}

/// A table serving `PATCH` with the given service.
pub fn patch<T: Clone>(svc: T) -> (r: MethodRouter<T>)
    ensures
        r.spec_slot(Method::Patch) matches Some(s) && cloned::<T>(svc, s),
        forall|m: Method| m != Method::Patch ==> r.spec_slot(m) is None,
        r.fallback is None,
        spec_allow_state(r.allow_header) == Some(seq!["PATCH"@]),
{
    let out = method_helper(Method::Patch, svc);
    proof {
        lemma_single_bit_filter(Method::Patch);
        assert(!Seq::<Seq<char>>::empty().contains("PATCH"@));
        assert(spec_allow_after_on(Seq::empty(), MethodFilter(spec_method_bit(Method::Patch)))
            =~= seq!["PATCH"@]);
    }
    out
}

/// A table serving `HEAD` with the given service.
pub fn head<T: Clone>(svc: T) -> (r: MethodRouter<T>)
    ensures
        r.spec_slot(Method::Head) matches Some(s) && cloned::<T>(svc, s),
        forall|m: Method| m != Method::Head ==> r.spec_slot(m) is None,
        r.fallback is None,
        spec_allow_state(r.allow_header) == Some(seq!["HEAD"@]),
{
    let out = method_helper(Method::Head, svc);
    proof {
        lemma_single_bit_filter(Method::Head);
        assert(!Seq::<Seq<char>>::empty().contains("HEAD"@));
        assert(spec_allow_after_on(Seq::empty(), MethodFilter(spec_method_bit(Method::Head)))
            =~= seq!["HEAD"@]);
    }
    out
}

/// A table serving `OPTIONS` with the given service.
pub fn options<T: Clone>(svc: T) -> (r: MethodRouter<T>)
    ensures
        r.spec_slot(Method::Options) matches Some(s) && cloned::<T>(svc, s),
        forall|m: Method| m != Method::Options ==> r.spec_slot(m) is None,
        r.fallback is None,
        spec_allow_state(r.allow_header) == Some(seq!["OPTIONS"@]),
{
    let out = method_helper(Method::Options, svc);
    proof {
        lemma_single_bit_filter(Method::Options);
        assert(!Seq::<Seq<char>>::empty().contains("OPTIONS"@));
        assert(spec_allow_after_on(Seq::empty(), MethodFilter(spec_method_bit(Method::Options)))
            =~= seq!["OPTIONS"@]);
    }
    out
}

/// A table serving `TRACE` with the given service.
pub fn trace<T: Clone>(svc: T) -> (r: MethodRouter<T>)
    ensures
        r.spec_slot(Method::Trace) matches Some(s) && cloned::<T>(svc, s),
        forall|m: Method| m != Method::Trace ==> r.spec_slot(m) is None,
        r.fallback is None,
        spec_allow_state(r.allow_header) == Some(seq!["TRACE"@]),
{
    let out = method_helper(Method::Trace, svc);
    proof {
        lemma_single_bit_filter(Method::Trace);
        assert(!Seq::<Seq<char>>::empty().contains("TRACE"@));
        assert(spec_allow_after_on(Seq::empty(), MethodFilter(spec_method_bit(Method::Trace)))
            =~= seq!["TRACE"@]);
    }
    out
}

/// A single-verb filter covers exactly its verb.
pub proof fn lemma_single_bit_filter(m: Method)
    ensures
        MethodFilter(spec_method_bit(m)).spec_has(m),
        forall|m2: Method| m2 != m ==> !MethodFilter(spec_method_bit(m)).spec_has(m2),
{
    let b = spec_method_bit(m);
    assert(b & b == b) by (bit_vector);
    assert forall|m2: Method| m2 != m implies !MethodFilter(b).spec_has(m2) by {
        let b2 = spec_method_bit(m2);
        assert(b & b2 != b2) by (bit_vector)
            requires
                b != b2,
                (b == 0b10u16 || b == 0b100u16 || b == 0b1000u16 || b == 0b10000u16 || b
                    == 0b100000u16 || b == 0b1000000u16 || b == 0b10000000u16 || b
                    == 0b100000000u16),
                (b2 == 0b10u16 || b2 == 0b100u16 || b2 == 0b1000u16 || b2 == 0b10000u16 || b2
                    == 0b100000u16 || b2 == 0b1000000u16 || b2 == 0b10000000u16 || b2
                    == 0b100000000u16),
        ;
    }
}

/// A table with one service registered for one verb.
fn method_helper<T: Clone>(m: Method, svc: T) -> (r: MethodRouter<T>)
    ensures
        r.spec_slot(m) matches Some(s) && cloned::<T>(svc, s),
        forall|m2: Method| m2 != m ==> r.spec_slot(m2) is None,
        r.fallback is None,
        spec_allow_state(r.allow_header) == Some(
            spec_allow_after_on(Seq::empty(), MethodFilter(spec_method_bit(m))),
        ),
{
    let filter = MethodFilter::of_method(m);
    proof {
        lemma_single_bit_filter(m);
    }
    match MethodRouter::new().on(filter, svc) {
        Ok(out) => out,
        Err(_) => vstd::pervasive::unreached(),
    }
}


impl<T> MethodRouter<T> {
    /// Wraps every registered service — each slot and the fallback — in a
    /// middleware transform, by wrapping and never by mutating in place:
    /// each occupied slot of the result holds the transform's output for
    /// the old service, and the `Allow` state is untouched.
    pub fn layer<T2, F: Fn(T) -> T2>(self, f: &F) -> (r: MethodRouter<T2>)
        requires
            forall|t: T| #[trigger] f.requires((t,)),
        ensures
            forall|m: Method|
                match (self.spec_slot(m), #[trigger] r.spec_slot(m)) {
                    (Some(a), Some(b)) => f.ensures((a,), b),
                    (None, None) => true,
                    _ => false,
                },
            match (self.fallback, r.fallback) {
                (Some(a), Some(b)) => f.ensures((a,), b),
                (None, None) => true,
                _ => false,
            },
            spec_allow_state(r.allow_header) == spec_allow_state(self.allow_header),
    {
        let MethodRouter { get, head, post, put, delete, patch, options, trace, fallback, allow_header } =
            self;
        MethodRouter {
            get: map_slot(get, f),
            head: map_slot(head, f),
            post: map_slot(post, f),
            put: map_slot(put, f),
            delete: map_slot(delete, f),
            patch: map_slot(patch, f),
            options: map_slot(options, f),
            trace: map_slot(trace, f),
            fallback: map_slot(fallback, f),
            allow_header,
        }
    }

    /// As [`MethodRouter::layer`], but only for the verb slots already
    /// registered: the fallback is left as it is, and applying it to a
    /// table with no registered verb is refused as a configuration error.
    pub fn route_layer<F: Fn(T) -> T>(self, f: &F) -> (r: Result<
        MethodRouter<T>,
        crate::path_router::RouterError,
    >)
        requires
            forall|t: T| #[trigger] f.requires((t,)),
        ensures
            (forall|m: Method| #[trigger] self.spec_slot(m) is None) <==> (r matches Err(
                crate::path_router::RouterError::RouteLayerBeforeRoutes,
            )),
            match r {
                Ok(out) => {
                    &&& forall|m: Method|
                        match (self.spec_slot(m), #[trigger] out.spec_slot(m)) {
                            (Some(a), Some(b)) => f.ensures((a,), b),
                            (None, None) => true,
                            _ => false,
                        }
                    &&& out.fallback == self.fallback
                    &&& spec_allow_state(out.allow_header) == spec_allow_state(self.allow_header)
                },
                Err(e) => e is RouteLayerBeforeRoutes,
            },
    {
        if self.get.is_none() && self.head.is_none() && self.post.is_none() && self.put.is_none()
            && self.delete.is_none() && self.patch.is_none() && self.options.is_none()
            && self.trace.is_none() {
            proof {
                assert forall|m: Method| #[trigger] self.spec_slot(m) is None by {
                    match m {
                        Method::Get => {},
                        Method::Head => {},
                        Method::Post => {},
                        Method::Put => {},
                        Method::Delete => {},
                        Method::Patch => {},
                        Method::Options => {},
                        Method::Trace => {},
                    }
                }
            }
            return Err(crate::path_router::RouterError::RouteLayerBeforeRoutes);
        }
        proof {
            assert(self.spec_slot(Method::Get) == self.get);
            assert(self.spec_slot(Method::Head) == self.head);
            assert(self.spec_slot(Method::Post) == self.post);
            assert(self.spec_slot(Method::Put) == self.put);
            assert(self.spec_slot(Method::Delete) == self.delete);
            assert(self.spec_slot(Method::Patch) == self.patch);
            assert(self.spec_slot(Method::Options) == self.options);
            assert(self.spec_slot(Method::Trace) == self.trace);
        }
        let MethodRouter { get, head, post, put, delete, patch, options, trace, fallback, allow_header } =
            self;
        Ok(
            MethodRouter {
                get: map_slot(get, f),
                head: map_slot(head, f),
                post: map_slot(post, f),
                put: map_slot(put, f),
                delete: map_slot(delete, f),
                patch: map_slot(patch, f),
                options: map_slot(options, f),
                trace: map_slot(trace, f),
                fallback,
                allow_header,
            },
        )
    }
}

/// Applies a transform under an optional slot.
fn map_slot<T, T2, F: Fn(T) -> T2>(slot: Option<T>, f: &F) -> (r: Option<T2>)
    requires
        forall|t: T| #[trigger] f.requires((t,)),
    ensures
        match (slot, r) {
            (Some(a), Some(b)) => f.ensures((a,), b),
            (None, None) => true,
            _ => false,
        },
{
    match slot {
        Some(t) => Some(f(t)),
        None => None,
    }
}

} // verus!

//! The laws the routing core obeys, stated and proved over the same
//! specifications the executable contracts use.

use vstd::prelude::*;
use crate::headers::{
    HeaderEntry, spec_has_header, spec_get_header, lemma_get_header_push,
    lemma_get_header_push_other,
};
use crate::method::Method;
use crate::method_filter::MethodFilter;
use crate::method_routing::{
    MethodRouter, spec_allow_state, spec_allow_value, spec_join, spec_append_token,
    spec_allow_after_on,
};
use crate::path_router::{Endpoint, EndpointKind, spec_dispatched_to};
use crate::request::Request;
use crate::response::{Response, STATUS_METHOD_NOT_ALLOWED};
use crate::route::{
    RouteFuture, RouteFutureKind, allow_name, content_length_name, spec_finalized_headers,
    spec_finalized_body,
};
use crate::text::dec_chars;

verus! {

/// A `HEAD` request to a table with a `GET` slot and no `HEAD` slot is
/// served by the very service the `GET` dispatch selects, with the body
/// marked for stripping; a `GET` dispatch of the same table keeps its
/// body. Combined with the finalization laws below, the `HEAD` response
/// carries the `GET` response's status and headers over an empty body.
pub proof fn lemma_head_serves_get<T>(
    ep: Endpoint<T>,
    mr: MethodRouter<T>,
    qh: Request,
    qg: Request,
    fh: RouteFuture<&T>,
    fg: RouteFuture<&T>,
)
    requires
        ep.kind == EndpointKind::MethodRouter(mr),
        mr.head is None,
        mr.get is Some,
        qh.method == Method::Head,
        qg.method == Method::Get,
        spec_dispatched_to(ep, qh, fh),
        spec_dispatched_to(ep, qg, fg),
    ensures
        fh.kind matches RouteFutureKind::Future { service: sh, .. } && (fg.kind matches
            RouteFutureKind::Future { service: sg, .. } && *sh == *sg),
        fh.strip == true,
        fg.strip == false,
        fh.allow is None,
        fg.allow is None,
{
    assert(mr.spec_selected(Method::Head) == Some(Method::Get));
    assert(mr.spec_selected(Method::Get) == Some(Method::Get));
}

/// Two dispatches that finalize the same inner response — a `HEAD`
/// dispatch with the body stripped, and a `GET` dispatch without — agree
/// on the status and on every header, the `HEAD` body is empty, and a
/// `Content-Length` attached during finalization names the inner body's
/// length, not zero.
pub proof fn lemma_head_response_matches_get(inner: Response, rh: Response, rg: Response)
    requires
        rh.status == inner.status,
        rh.headers@ == spec_finalized_headers(
            inner.headers@,
            inner.body@.len() as int,
            None::<Seq<char>>,
        ),
        rh.body@ == spec_finalized_body(inner.body@, true),
        rg.status == inner.status,
        rg.headers@ == spec_finalized_headers(
            inner.headers@,
            inner.body@.len() as int,
            None::<Seq<char>>,
        ),
        rg.body@ == spec_finalized_body(inner.body@, false),
    ensures
        rh.status == rg.status,
        rh.headers@ == rg.headers@,
        rh.body@ == Seq::<u8>::empty(),
        rg.body@ == inner.body@,
        !spec_has_header(inner.headers@, content_length_name()) ==> spec_get_header(
            rh.headers@,
            content_length_name(),
        ) == Some(dec_chars(inner.body@.len() as int)),
{
    if !spec_has_header(inner.headers@, content_length_name()) {
        lemma_finalized_content_length(
            inner.headers@,
            inner.body@.len() as int,
            None::<Seq<char>>,
        );
    }
}

/// A finalized response that lacked a `Content-Length` header carries
/// one naming exactly the inner body's length — the length before any
/// stripping.
pub proof fn lemma_finalized_content_length(
    h: Seq<HeaderEntry>,
    body_len: int,
    allow: Option<Seq<char>>,
)
    requires
        !spec_has_header(h, content_length_name()),
    ensures
        spec_get_header(spec_finalized_headers(h, body_len, allow), content_length_name()) == Some(
            dec_chars(body_len),
        ),
{
    reveal_strlit("allow");
    reveal_strlit("content-length");
    assert(allow_name().len() == 5);
    assert(content_length_name().len() == 14);
    assert(allow_name() != content_length_name());
    let h1 = if allow is Some && !spec_has_header(h, allow_name()) {
        h.push((allow_name(), allow->0))
    } else {
        h
    };
    if allow is Some && !spec_has_header(h, allow_name()) {
        lemma_get_header_push_other(h, allow_name(), allow->0, content_length_name());
    }
    assert(!spec_has_header(h1, content_length_name()));
    lemma_get_header_push(h1, content_length_name(), dec_chars(body_len));
}

/// A request whose verb has no slot, in a table without a custom
/// fallback, resolves to the built-in "method not allowed" response, and
/// the attached `Allow` value is the comma-joined token list the table
/// derived.
pub proof fn lemma_method_not_allowed<T>(
    ep: Endpoint<T>,
    mr: MethodRouter<T>,
    req2: Request,
    fut: RouteFuture<&T>,
    toks: Seq<Seq<char>>,
)
    requires
        ep.kind == EndpointKind::MethodRouter(mr),
        mr.spec_selected(req2.method) is None,
        mr.fallback is None,
        spec_allow_state(mr.allow_header) == Some(toks),
        spec_dispatched_to(ep, req2, fut),
    ensures
        fut.kind matches RouteFutureKind::Ready { response } && response.status
            == STATUS_METHOD_NOT_ALLOWED && response.body@ == Seq::<u8>::empty(),
        fut.spec_allow() == Some(spec_join(toks)),
        fut.strip == false,
{
    assert(spec_allow_value(mr.allow_header) == Some(spec_join(toks)));
}

/// Whether a token names a verb the filter covers: the verb's own name,
/// or `HEAD` for a `GET` registration, which also serves `HEAD`.
pub open spec fn spec_filter_names(filter: MethodFilter, x: Seq<char>) -> bool {
    exists|m: Method|
        #[trigger] filter.spec_has(m) && (x == m.spec_name() || (m == Method::Get && x
            == "HEAD"@))
}

proof fn lemma_append_token_membership(t: Seq<Seq<char>>, tok: Seq<char>)
    ensures
        forall|x: Seq<char>|
            #[trigger] spec_append_token(t, tok).contains(x) <==> (t.contains(x) || x == tok),
        t.no_duplicates() ==> spec_append_token(t, tok).no_duplicates(),
{
    let out = spec_append_token(t, tok);
    assert forall|x: Seq<char>| #[trigger] out.contains(x) implies (t.contains(x) || x == tok) by {
        if !t.contains(tok) {
            let i = choose|i: int| 0 <= i < out.len() && out[i] == x;
            if i < t.len() {
                assert(t[i] == x);
            }
        }
    }
    assert forall|x: Seq<char>| (t.contains(x) || x == tok) implies #[trigger] out.contains(x) by {
        if t.contains(x) {
            let i = choose|i: int| 0 <= i < t.len() && t[i] == x;
            assert(out[i] == x);
        } else {
            if !t.contains(tok) {
                assert(out[t.len() as int] == tok);
            } else {
                let i = choose|i: int| 0 <= i < t.len() && t[i] == tok;
                assert(out[i] == tok);
            }
        }
    }
    if t.no_duplicates() && !t.contains(tok) {
        assert forall|i: int, j: int|
            0 <= i < j < out.len() implies out[i] != out[j] by {
            if j == t.len() {
                assert(out[i] == t[i]);
            }
        }
    }
}

/// The `Allow` tokens after a registration hold exactly the earlier
/// tokens and the names of the verbs the filter covers, without
/// duplicates: nothing is lost, nothing is repeated, nothing else is
/// listed.
pub proof fn lemma_allow_tokens_after_on(t: Seq<Seq<char>>, filter: MethodFilter)
    ensures
        forall|x: Seq<char>|
            #[trigger] spec_allow_after_on(t, filter).contains(x) <==> (t.contains(x)
                || spec_filter_names(filter, x)),
        t.no_duplicates() ==> spec_allow_after_on(t, filter).no_duplicates(),
{
    let t0 = t;
    let t1 = if filter.spec_has(Method::Get) {
        spec_append_token(spec_append_token(t0, "GET"@), "HEAD"@)
    } else {
        t0
    };
    let t2 = if filter.spec_has(Method::Head) {
        spec_append_token(t1, "HEAD"@)
    } else {
        t1
    };
    let t3 = if filter.spec_has(Method::Trace) {
        spec_append_token(t2, "TRACE"@)
    } else {
        t2
    };
    let t4 = if filter.spec_has(Method::Put) {
        spec_append_token(t3, "PUT"@)
    } else {
        t3
    };
    let t5 = if filter.spec_has(Method::Post) {
        spec_append_token(t4, "POST"@)
    } else {
        t4
    };
    let t6 = if filter.spec_has(Method::Patch) {
        spec_append_token(t5, "PATCH"@)
    } else {
        t5
    };
    let t7 = if filter.spec_has(Method::Options) {
        spec_append_token(t6, "OPTIONS"@)
    } else {
        t6
    };
    let t8 = if filter.spec_has(Method::Delete) {
        spec_append_token(t7, "DELETE"@)
    } else {
        t7
    };
    assert(spec_allow_after_on(t, filter) == t8);
    lemma_append_token_membership(spec_append_token(t0, "GET"@), "HEAD"@);
    lemma_append_token_membership(t0, "GET"@);
    lemma_append_token_membership(t1, "HEAD"@);
    lemma_append_token_membership(t2, "TRACE"@);
    lemma_append_token_membership(t3, "PUT"@);
    lemma_append_token_membership(t4, "POST"@);
    lemma_append_token_membership(t5, "PATCH"@);
    lemma_append_token_membership(t6, "OPTIONS"@);
    lemma_append_token_membership(t7, "DELETE"@);
    assert forall|x: Seq<char>|
        #[trigger] t8.contains(x) implies (t.contains(x) || spec_filter_names(filter, x)) by {
        if !t.contains(x) {
            if t7.contains(x) {
                if t6.contains(x) {
                    if t5.contains(x) {
                        if t4.contains(x) {
                            if t3.contains(x) {
                                if t2.contains(x) {
                                    if t1.contains(x) {
                                        assert(filter.spec_has(Method::Get));
                                        assert(x == "GET"@ || x == "HEAD"@);
                                        assert(spec_filter_names(filter, x));
                                    } else {
                                        assert(filter.spec_has(Method::Head) && x == "HEAD"@);
                                        assert(spec_filter_names(filter, x));
                                    }
                                } else {
                                    assert(filter.spec_has(Method::Trace) && x == "TRACE"@);
                                    assert(spec_filter_names(filter, x));
                                }
                            } else {
                                assert(filter.spec_has(Method::Put) && x == "PUT"@);
                                assert(spec_filter_names(filter, x));
                            }
                        } else {
                            assert(filter.spec_has(Method::Post) && x == "POST"@);
                            assert(spec_filter_names(filter, x));
                        }
                    } else {
                        assert(filter.spec_has(Method::Patch) && x == "PATCH"@);
                        assert(spec_filter_names(filter, x));
                    }
                } else {
                    assert(filter.spec_has(Method::Options) && x == "OPTIONS"@);
                    assert(spec_filter_names(filter, x));
                }
            } else {
                assert(filter.spec_has(Method::Delete) && x == "DELETE"@);
                assert(spec_filter_names(filter, x));
            }
        }
    }
    assert forall|x: Seq<char>|
        (t.contains(x) || spec_filter_names(filter, x)) implies #[trigger] t8.contains(x) by {
        if t.contains(x) {
        } else {
            let m = choose|m: Method|
                #[trigger] filter.spec_has(m) && (x == m.spec_name() || (m == Method::Get && x
                    == "HEAD"@));
            match m {
                Method::Get => {
                    assert(t1.contains(x));
                }
                Method::Head => {
                    assert(t2.contains(x));
                }
                Method::Trace => {
                    assert(t3.contains(x));
                }
                Method::Put => {
                    assert(t4.contains(x));
                }
                Method::Post => {
                    assert(t5.contains(x));
                }
                Method::Patch => {
                    assert(t6.contains(x));
                }
                Method::Options => {
                    assert(t7.contains(x));
                }
                Method::Delete => {
                    assert(t8.contains(x));
                }
            }
        }
    }
}

} // verus!

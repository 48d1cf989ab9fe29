use saas::method::Method;
use saas::method_filter::{MethodFilter, FILTER_GET, FILTER_PUT, FILTER_POST};
use saas::method_routing::{get, put, post, any, on, MethodRouter, MethodRouterError};
use saas::request::Request;
use saas::response::Response;
use saas::router::AppRouter;
use saas::route::RouteFutureKind;

fn req(method: Method, path: &str) -> Request {
    Request::new(method, path.to_owned())
}

fn text_response(status: u16, text: &str) -> Response {
    Response::with_text(status, text)
}

fn header(resp: &Response, name: &str) -> Option<String> {
    resp.headers.get(&name.to_owned()).cloned()
}

#[test]
fn get_route_dispatches() {
    let mut app: AppRouter<Response> = AppRouter::new();
    app.route("/x", get(text_response(200, "hello"))).unwrap();
    let resp = app.respond(req(Method::Get, "/x"));
    assert_eq!(resp.status, 200);
    assert_eq!(resp.body, b"hello".to_vec());
    assert_eq!(header(&resp, "content-length"), Some("5".to_owned()));
}

#[test]
fn head_serves_get_with_empty_body() {
    // the HEAD response carries GET's status and content-length over an
    // empty body
    let mut app: AppRouter<Response> = AppRouter::new();
    app.route("/x", get(text_response(200, "hello"))).unwrap();
    let get_resp = app.respond(req(Method::Get, "/x"));
    let head_resp = app.respond(req(Method::Head, "/x"));
    assert_eq!(head_resp.status, get_resp.status);
    assert_eq!(head_resp.body, Vec::<u8>::new());
    assert_eq!(header(&head_resp, "content-length"), Some("5".to_owned()));
    assert_eq!(head_resp.headers.entries.len(), get_resp.headers.entries.len());
    for (a, b) in head_resp.headers.entries.iter().zip(get_resp.headers.entries.iter()) {
        assert_eq!(a.0, b.0);
        assert_eq!(a.1, b.1);
    }
}

#[test]
fn unregistered_verb_is_405_with_allow() {
    let mut app: AppRouter<Response> = AppRouter::new();
    let table = get(text_response(200, "a")).merge(put(text_response(200, "b"))).unwrap();
    app.route("/a", table).unwrap();
    let resp = app.respond(req(Method::Post, "/a"));
    assert_eq!(resp.status, 405);
    assert_eq!(header(&resp, "allow"), Some("GET,HEAD,PUT".to_owned()));
    assert_eq!(resp.body, Vec::<u8>::new());
}

#[test]
fn allow_has_no_duplicates() {
    // GET already records HEAD; an explicit HEAD registration must not
    // repeat it
    let table: MethodRouter<Response> =
        get(text_response(200, "a")).on(MethodFilter::of_method(Method::Head), text_response(200, "h")).unwrap();
    let mut app: AppRouter<Response> = AppRouter::new();
    app.route("/a", table).unwrap();
    let resp = app.respond(req(Method::Post, "/a"));
    assert_eq!(resp.status, 405);
    assert_eq!(header(&resp, "allow"), Some("GET,HEAD".to_owned()));
}

#[test]
fn overlapping_registration_fails() {
    // a verb may be registered once; a second registration must fail, not
    // overwrite
    let table: MethodRouter<Response> = get(text_response(200, "one"));
    let result = table.on(MethodFilter::of_method(Method::Get), text_response(200, "two"));
    match result {
        Err(MethodRouterError::OverlappingMethodRoute { method, path }) => {
            assert!(matches!(method, Method::Get));
            assert!(path.is_none());
        }
        _ => panic!("a second GET registration must be refused"),
    }
}

#[test]
fn disjoint_filters_combine() {
    let table: MethodRouter<Response> = MethodRouter::new();
    let table = table.on(MethodFilter::from_bits(FILTER_GET | FILTER_POST), text_response(200, "a")).unwrap();
    let table = table.on(MethodFilter::from_bits(FILTER_PUT), text_response(201, "b")).unwrap();
    let mut app: AppRouter<Response> = AppRouter::new();
    app.route("/m", table).unwrap();
    assert_eq!(app.respond(req(Method::Get, "/m")).status, 200);
    assert_eq!(app.respond(req(Method::Post, "/m")).status, 200);
    assert_eq!(app.respond(req(Method::Put, "/m")).status, 201);
}

#[test]
fn unmatched_path_is_404() {
    let mut app: AppRouter<Response> = AppRouter::new();
    app.route("/x", get(text_response(200, "x"))).unwrap();
    let resp = app.respond(req(Method::Get, "/missing"));
    assert_eq!(resp.status, 404);
    let trailing = app.respond(req(Method::Get, "/x/"));
    assert_eq!(trailing.status, 404);
}

#[test]
fn fallback_service_catches_unmatched() {
    let mut app: AppRouter<Response> = AppRouter::new();
    app.route("/x", get(text_response(200, "x"))).unwrap();
    let app = app.fallback_service(text_response(418, "fallback"));
    let resp = app.respond(req(Method::Get, "/missing"));
    assert_eq!(resp.status, 418);
    assert_eq!(resp.body, b"fallback".to_vec());
}

#[test]
fn any_serves_every_verb_without_allow() {
    let mut app: AppRouter<Response> = AppRouter::new();
    app.route("/any", any(text_response(200, "all"))).unwrap();
    for m in [Method::Get, Method::Post, Method::Delete, Method::Trace] {
        let resp = app.respond(req(m, "/any"));
        assert_eq!(resp.status, 200);
        assert_eq!(header(&resp, "allow"), None);
    }
}

#[test]
fn merge_overlap_names_path_and_verb() {
    let mut a: AppRouter<Response> = AppRouter::new();
    a.route("/a", get(text_response(200, "one"))).unwrap();
    let mut b: AppRouter<Response> = AppRouter::new();
    b.route("/a", get(text_response(200, "two"))).unwrap();
    match a.merge(b) {
        Err(saas::path_router::RouterError::Method(
            MethodRouterError::OverlappingMethodRoute { method, path },
        )) => {
            assert!(matches!(method, Method::Get));
            assert_eq!(path, Some("/a".to_owned()));
        }
        _ => panic!("merging two GET registrations of one path must fail"),
    }
}

#[test]
fn merge_disjoint_preserves_both() {
    let mut a: AppRouter<Response> = AppRouter::new();
    a.route("/a", get(text_response(200, "a"))).unwrap();
    let mut b: AppRouter<Response> = AppRouter::new();
    b.route("/b", get(text_response(201, "b"))).unwrap();
    a.merge(b).unwrap();
    assert_eq!(a.respond(req(Method::Get, "/a")).status, 200);
    assert_eq!(a.respond(req(Method::Get, "/b")).status, 201);
}

#[test]
fn merge_combines_tables_of_one_path() {
    let mut a: AppRouter<Response> = AppRouter::new();
    a.route("/a", get(text_response(200, "a"))).unwrap();
    let mut b: AppRouter<Response> = AppRouter::new();
    b.route("/a", post(text_response(201, "b"))).unwrap();
    a.merge(b).unwrap();
    assert_eq!(a.respond(req(Method::Get, "/a")).status, 200);
    assert_eq!(a.respond(req(Method::Post, "/a")).status, 201);
}

#[test]
fn nest_dispatches_with_stripped_path() {
    let mut inner: AppRouter<Response> = AppRouter::new();
    inner.route("/health", get(text_response(200, "ok"))).unwrap();
    let mut app: AppRouter<Response> = AppRouter::new();
    app.nest("/api", inner).unwrap();
    let resp = app.respond(req(Method::Get, "/api/health"));
    assert_eq!(resp.status, 200);
    assert_eq!(resp.body, b"ok".to_vec());
    // the inner service must see the path with the prefix stripped
    let fut = app.call_with_state(req(Method::Get, "/api/health"));
    match fut.kind {
        RouteFutureKind::Future { request, .. } => {
            assert_eq!(request.path, "/health".to_owned());
            assert_eq!(
                request.extensions.matched_path,
                Some("/api/health".to_owned())
            );
            assert_eq!(request.extensions.original_path, Some("/api/health".to_owned()));
        }
        RouteFutureKind::Ready { .. } => panic!("the nested route must be selected"),
    }
}

#[test]
fn nested_wildcard_prefix_is_refused() {
    let inner: AppRouter<Response> = AppRouter::new();
    let mut app: AppRouter<Response> = AppRouter::new();
    match app.nest("/api/*rest", inner) {
        Err(saas::path_router::RouterError::NestedWildcard) => {}
        _ => panic!("a wildcard in a nest prefix must be refused"),
    }
}

#[test]
fn route_needs_leading_slash() {
    let mut app: AppRouter<Response> = AppRouter::new();
    match app.route("", get(text_response(200, "x"))) {
        Err(saas::path_router::RouterError::InvalidPath) => {}
        _ => panic!("an empty pattern must be refused"),
    }
    match app.route("x", get(text_response(200, "x"))) {
        Err(saas::path_router::RouterError::InvalidPath) => {}
        _ => panic!("a pattern without a leading slash must be refused"),
    }
}

#[test]
fn method_filter_operations() {
    let gp = MethodFilter::from_bits(FILTER_GET).or(MethodFilter::from_bits(FILTER_POST));
    assert!(gp.contains(MethodFilter::from_bits(FILTER_GET)));
    assert!(gp.contains(MethodFilter::from_bits(FILTER_POST)));
    assert!(!gp.contains(MethodFilter::from_bits(FILTER_PUT)));
    assert!(gp.has(Method::Get));
    assert!(!gp.has(Method::Put));
    assert_eq!(MethodFilter::from_bits(FILTER_GET).bits(), FILTER_GET);
}

#[test]
fn existing_content_length_is_kept() {
    let mut resp = text_response(200, "hello");
    resp.headers.append("content-length".to_owned(), "99".to_owned());
    let mut app: AppRouter<Response> = AppRouter::new();
    app.route("/x", get(resp)).unwrap();
    let out = app.respond(req(Method::Get, "/x"));
    assert_eq!(header(&out, "content-length"), Some("99".to_owned()));
}

#[test]
fn on_filter_with_multiple_verbs() {
    let table: MethodRouter<Response> =
        on(MethodFilter::from_bits(FILTER_GET | FILTER_PUT), text_response(200, "x")).unwrap();
    let mut app: AppRouter<Response> = AppRouter::new();
    app.route("/multi", table).unwrap();
    assert_eq!(app.respond(req(Method::Get, "/multi")).status, 200);
    assert_eq!(app.respond(req(Method::Put, "/multi")).status, 200);
    assert_eq!(app.respond(req(Method::Post, "/multi")).status, 405);
}

#[test]
fn layer_wraps_every_route() {
    let mut app: AppRouter<Response> = AppRouter::new();
    app.route("/a", get(text_response(200, "a"))).unwrap();
    app.route("/b", post(text_response(201, "b"))).unwrap();
    let tag = |mut resp: Response| -> Response {
        resp.headers.append("x-layered".to_owned(), "yes".to_owned());
        resp
    };
    let app = app.layer(&tag);
    let a = app.respond(req(Method::Get, "/a"));
    assert_eq!(a.status, 200);
    assert_eq!(header(&a, "x-layered"), Some("yes".to_owned()));
    let b = app.respond(req(Method::Post, "/b"));
    assert_eq!(b.status, 201);
    assert_eq!(header(&b, "x-layered"), Some("yes".to_owned()));
}

#[test]
fn route_layer_before_routes_is_refused() {
    let app: AppRouter<Response> = AppRouter::new();
    let same = |resp: Response| -> Response { resp };
    match app.route_layer(&same) {
        Err(saas::path_router::RouterError::RouteLayerBeforeRoutes) => {}
        _ => panic!("a route layer needs at least one registered route"),
    }
}

#[test]
fn route_layer_leaves_fallback_alone() {
    let mut app: AppRouter<Response> = AppRouter::new();
    app.route("/a", get(text_response(200, "a"))).unwrap();
    let app = app.fallback_service(text_response(418, "fb"));
    let tag = |mut resp: Response| -> Response {
        resp.headers.append("x-layered".to_owned(), "yes".to_owned());
        resp
    };
    let app = app.route_layer(&tag).unwrap();
    let a = app.respond(req(Method::Get, "/a"));
    assert_eq!(header(&a, "x-layered"), Some("yes".to_owned()));
    let fb = app.respond(req(Method::Get, "/missing"));
    assert_eq!(fb.status, 418);
    assert_eq!(header(&fb, "x-layered"), None);
}

#[test]
fn nest_service_answers_prefix_and_below() {
    let mut app: AppRouter<Response> = AppRouter::new();
    app.nest_service("/files", text_response(200, "file")).unwrap();
    assert_eq!(app.respond(req(Method::Get, "/files")).status, 200);
    assert_eq!(app.respond(req(Method::Get, "/files/")).status, 200);
    assert_eq!(app.respond(req(Method::Get, "/files/a/b")).status, 200);
    assert_eq!(app.respond(req(Method::Get, "/elsewhere")).status, 404);
}

#[test]
fn too_many_parameters_is_refused_not_fatal() {
    // the trie renames parameters to single letters; a pattern with more
    // than it supports must come back as an error, not end the process
    let mut pattern = String::new();
    for i in 0..26 {
        pattern.push_str(&format!("/:p{}", i));
    }
    let mut app: AppRouter<Response> = AppRouter::new();
    match app.route(&pattern, get(text_response(200, "x"))) {
        Err(saas::path_router::RouterError::TooManyParameters) => {}
        other => panic!("a pattern with too many parameters must be refused, got {:?}", other.is_ok()),
    }
    // the registry is untouched and still usable
    app.route("/ok", get(text_response(200, "ok"))).unwrap();
    assert_eq!(app.respond(req(Method::Get, "/ok")).status, 200);
}

#[test]
fn many_parameters_within_the_bound_work() {
    let mut pattern = String::new();
    for i in 0..25 {
        pattern.push_str(&format!("/:p{}", i));
    }
    let mut app: AppRouter<Response> = AppRouter::new();
    app.route(&pattern, get(text_response(200, "deep"))).unwrap();
    let mut path = String::new();
    for i in 0..25 {
        path.push_str(&format!("/v{}", i));
    }
    assert_eq!(app.respond(req(Method::Get, &path)).status, 200);
}

#[test]
fn table_route_layer_needs_a_route() {
    let empty: MethodRouter<Response> = MethodRouter::new();
    let same = |resp: Response| -> Response { resp };
    match empty.route_layer(&same) {
        Err(saas::path_router::RouterError::RouteLayerBeforeRoutes) => {}
        _ => panic!("a table route layer needs at least one registered verb"),
    }
    let filled: MethodRouter<Response> = get(text_response(200, "x"));
    let layered = filled.route_layer(&same).unwrap();
    let mut app: AppRouter<Response> = AppRouter::new();
    app.route("/x", layered).unwrap();
    assert_eq!(app.respond(req(Method::Get, "/x")).status, 200);
}

#[test]
fn failed_registration_leaves_registry_unchanged() {
    let mut app: AppRouter<Response> = AppRouter::new();
    app.route("/a", get(text_response(200, "a"))).unwrap();
    // a second GET on the same path is refused...
    assert!(app.route("/a", get(text_response(200, "b"))).is_err());
    // ...and the registered route still answers as before
    let resp = app.respond(req(Method::Get, "/a"));
    assert_eq!(resp.status, 200);
    assert_eq!(resp.body, b"a".to_vec());
}

use saas::method::Method;
use saas::method_routing::get;
use saas::request::Request;
use saas::response::Response;
use saas::router::AppRouter;
use saas::route::RouteFutureKind;
use saas::url_params::UrlParams;

fn req(method: Method, path: &str) -> Request {
    Request::new(method, path.to_owned())
}

fn captured(app: &AppRouter<Response>, path: &str) -> Option<UrlParams> {
    let fut = app.call_with_state(req(Method::Get, path));
    match fut.kind {
        RouteFutureKind::Future { request, .. } => request.extensions.url_params,
        RouteFutureKind::Ready { .. } => None,
    }
}

fn user_router() -> AppRouter<Response> {
    let mut app: AppRouter<Response> = AppRouter::new();
    app.route("/users/:id", get(Response::with_text(200, "user"))).unwrap();
    app
}

#[test]
fn param_is_captured_as_one_pair() {
    let app = user_router();
    match captured(&app, "/users/42") {
        Some(UrlParams::Params(ps)) => {
            assert_eq!(ps.len(), 1);
            assert_eq!(ps[0].0, "id".to_owned());
            assert_eq!(ps[0].1, "42".to_owned());
        }
        _ => panic!("one decoded pair must be captured"),
    }
}

#[test]
fn param_is_percent_decoded() {
    let app = user_router();
    // "你好", percent-encoded as UTF-8
    match captured(&app, "/users/%E4%BD%A0%E5%A5%BD") {
        Some(UrlParams::Params(ps)) => {
            assert_eq!(ps.len(), 1);
            assert_eq!(ps[0].0, "id".to_owned());
            assert_eq!(ps[0].1, "\u{4f60}\u{597d}".to_owned());
        }
        _ => panic!("the value must decode"),
    }
}

#[test]
fn undecodable_param_reports_its_key() {
    let app = user_router();
    match captured(&app, "/users/%FF") {
        Some(UrlParams::InvalidUtf8InPathParams { key }) => {
            assert_eq!(key, "id".to_owned());
        }
        _ => panic!("a value that is not UTF-8 must be reported under its key"),
    }
}

#[test]
fn decode_params_drops_internal_keys() {
    let pairs = vec![
        ("__private__nest_tail_param".to_owned(), "x/y".to_owned()),
        ("id".to_owned(), "7".to_owned()),
    ];
    let decoded = saas::url_params::decode_params(&pairs).unwrap();
    assert_eq!(decoded.len(), 1);
    assert_eq!(decoded[0].0, "id".to_owned());
    assert_eq!(decoded[0].1, "7".to_owned());
}

#[test]
fn decode_params_reports_first_failure() {
    let pairs = vec![
        ("a".to_owned(), "ok".to_owned()),
        ("b".to_owned(), "%ff".to_owned()),
        ("c".to_owned(), "%fe".to_owned()),
    ];
    match saas::url_params::decode_params(&pairs) {
        Err(key) => assert_eq!(key, "b".to_owned()),
        Ok(_) => panic!("the second value cannot decode"),
    }
}

#[test]
fn percent_decoding_is_exact() {
    let decoded = saas::percent::percent_decoded_str(&"a%20b%2Fc".to_owned()).unwrap();
    assert_eq!(decoded, "a b/c".to_owned());
    let plain = saas::percent::percent_decoded_str(&"plain".to_owned()).unwrap();
    assert_eq!(plain, "plain".to_owned());
    let stray = saas::percent::percent_decoded_str(&"100%".to_owned()).unwrap();
    assert_eq!(stray, "100%".to_owned());
}

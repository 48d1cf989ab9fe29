use saas::extract::{
    extract_body, extract_one, run_parts_extractors, Extracted, PartsExtractor, Rejection,
    RawQuery, DefaultBodyLimit,
};
use saas::method::Method;
use saas::request::{BodyLimitKind, Request};

fn base_request() -> Request {
    let mut req = Request::new(Method::Get, "/users/7".to_owned());
    req.query = Some("page=2".to_owned());
    req.body = b"payload".to_vec();
    req
}

fn matched_request() -> Request {
    let mut req = base_request();
    req.extensions.matched_path = Some("/users/:id".to_owned());
    req.extensions.url_params = Some(saas::url_params::UrlParams::Params(vec![(
        "id".to_owned(),
        "7".to_owned(),
    )]));
    req
}

#[test]
fn extractors_run_in_declared_order() {
    let req = matched_request();
    let metas = vec![
        PartsExtractor::MatchedPath,
        PartsExtractor::RawQuery,
        PartsExtractor::RawPathParams,
    ];
    let values = run_parts_extractors(&req, &metas).unwrap();
    assert_eq!(values.len(), 3);
    assert!(matches!(&values[0], Extracted::MatchedPath(m) if m.as_str() == "/users/:id"));
    assert!(matches!(&values[1], Extracted::RawQuery(RawQuery(Some(q))) if q == "page=2"));
    assert!(matches!(&values[2], Extracted::RawPathParams(ps) if ps.len() == 1));
}

#[test]
fn pipeline_stops_at_first_rejection() {
    let req = base_request();  // no matched path, no params
    let metas = vec![
        PartsExtractor::RawQuery,
        PartsExtractor::MatchedPath,
        PartsExtractor::RawPathParams,
    ];
    match run_parts_extractors(&req, &metas) {
        Err((i, Rejection::MatchedPathMissing)) => assert_eq!(i, 1),
        _ => panic!("the second step must reject first"),
    }
}

#[test]
fn optional_and_outcome_wrapping_never_fail() {
    let req = base_request();  // MatchedPath alone would reject
    let metas = vec![
        PartsExtractor::Optional(Box::new(PartsExtractor::MatchedPath)),
        PartsExtractor::Outcome(Box::new(PartsExtractor::MatchedPath)),
    ];
    let values = run_parts_extractors(&req, &metas).unwrap();
    assert!(matches!(&values[0], Extracted::Maybe(None)));
    assert!(matches!(&values[1], Extracted::Tried(Err(Rejection::MatchedPathMissing))));
}

#[test]
fn optional_wraps_successful_value() {
    let req = matched_request();
    let wrapped = PartsExtractor::Optional(Box::new(PartsExtractor::MatchedPath));
    match extract_one(&wrapped, &req).unwrap() {
        Extracted::Maybe(Some(inner)) => {
            assert!(matches!(*inner, Extracted::MatchedPath(ref m) if m.as_str() == "/users/:id"));
        }
        _ => panic!("a successful inner step must be wrapped as present"),
    }
}

#[test]
fn body_is_taken_once_by_value() {
    let req = matched_request();
    let body = extract_body(req);
    assert_eq!(body, b"payload".to_vec());
    // req has been consumed: no second body extraction can be written
}

#[test]
fn body_limit_layer_records_its_kind() {
    let limit = DefaultBodyLimit::max(1024);
    let service = limit.layer(());
    let mut req = base_request();
    service.apply(&mut req);
    assert_eq!(req.extensions.body_limit, Some(BodyLimitKind::Limit(1024)));
    let off = DefaultBodyLimit::disable();
    let service = off.layer(());
    service.apply(&mut req);
    assert_eq!(req.extensions.body_limit, Some(BodyLimitKind::Disable));
}

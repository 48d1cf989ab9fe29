use saas::error::Error;
use saas::headers::HeaderMap;
use saas::path::{ErrorKind, FailedToDeserializePathParams, InvalidUtf8InPathParam,
    PathDeserializationError, RawPathParams};
use saas::strip_prefix::strip_prefix;
use saas::text::format_u64;

#[test]
fn strip_prefix_cases() {
    let strip = |p: &str, r: &str| strip_prefix(&p.to_owned(), &r.to_owned());
    assert_eq!(strip("/api/health", "/api"), Some("/health".to_owned()));
    assert_eq!(strip("/api", "/api"), Some("/".to_owned()));
    assert_eq!(strip("/api/health", "/api/"), Some("/health".to_owned()));
    assert_eq!(strip("/users/42/posts", "/users/:id"), Some("/posts".to_owned()));
    assert_eq!(strip("/other/x", "/api"), None);
    assert_eq!(strip("/x", "/"), Some("/x".to_owned()));
}

#[test]
fn header_map_semantics() {
    let mut h = HeaderMap::new();
    h.append("a".to_owned(), "1".to_owned());
    h.append("a".to_owned(), "2".to_owned());
    h.append("b".to_owned(), "3".to_owned());
    assert_eq!(h.get(&"a".to_owned()), Some(&"1".to_owned()));
    assert!(h.contains_key(&"b".to_owned()));
    assert!(!h.contains_key(&"c".to_owned()));
    h.insert("a".to_owned(), "9".to_owned());
    assert_eq!(h.len(), 2);
    assert_eq!(h.get(&"a".to_owned()), Some(&"9".to_owned()));
    assert_eq!(h.get(&"b".to_owned()), Some(&"3".to_owned()));
}

#[test]
fn decimal_rendering() {
    assert_eq!(format_u64(0), "0".to_owned());
    assert_eq!(format_u64(5), "5".to_owned());
    assert_eq!(format_u64(1024), "1024".to_owned());
}

#[test]
fn path_rejection_messages() {
    let failed = FailedToDeserializePathParams(PathDeserializationError::new(
        ErrorKind::WrongNumberOfParameters { got: 2, expected: 1 },
    ));
    assert_eq!(failed.status(), 500);
    assert_eq!(
        failed.body_text(),
        "Wrong number of path arguments for `Path`. Expected 1 but got 2. Note that multiple \
         parameters must be extracted with a tuple `Path<(_, _)>` or a struct `Path<YourParams>`"
            .to_owned()
    );
    let parse = FailedToDeserializePathParams(PathDeserializationError::new(
        ErrorKind::ParseErrorAtKey {
            key: "id".to_owned(),
            value: "abc".to_owned(),
            expected_type: "u32",
        },
    ));
    assert_eq!(parse.status(), 400);
    assert_eq!(
        parse.body_text(),
        "Invalid URL: Cannot parse `id` with value `\"abc\"` to a `u32`".to_owned()
    );
    assert!(matches!(parse.kind(), ErrorKind::ParseErrorAtKey { .. }));
}

#[test]
fn invalid_utf8_rejection() {
    let rej = InvalidUtf8InPathParam { key: "id".to_owned() };
    assert_eq!(rej.status(), 400);
    assert_eq!(rej.body_text(), "Invalid UTF-8 in `id`".to_owned());
}

#[test]
fn raw_path_params_iteration() {
    let params = RawPathParams(vec![
        ("a".to_owned(), "1".to_owned()),
        ("b".to_owned(), "2".to_owned()),
    ]);
    let mut it = params.iter();
    assert_eq!(it.next(), Some((&"a".to_owned(), &"1".to_owned())));
    assert_eq!(it.next(), Some((&"b".to_owned(), &"2".to_owned())));
    assert_eq!(it.next(), None);
}

#[test]
fn error_round_trip() {
    let e = Error::new("went wrong".to_owned());
    assert_eq!(e.into_inner(), "went wrong".to_owned());
}

use std::str::FromStr;

use valar::http::cookies::{Cookie, RequestCookie, ResponseCookie, SameSite};
use valar::http::error::{error_response, ErrorResponse, HandlerError};
use valar::http::headers::Headers;
use valar::http::method::Method;
use valar::http::request::{not_found, query_parameters, wants_json, Request};
use valar::utils::TruncatableToFit;

#[test]
fn cookies_it_can_create_simple_cookies() {
    let cookie = ResponseCookie::builder("foo", "bar").build();

    assert_eq!(cookie.to_string(), "foo=bar");
}

#[test]
fn cookies_it_can_create_complex_cookies() {
    let cookie = ResponseCookie::builder("foo", "bar")
        .path(Some("/"))
        .domain(Some("example.com"))
        .max_age(Some(3600))
        .secure(true)
        .http_only(true)
        .same_site(Some(SameSite::Strict))
        .build();

    assert_eq!(
        cookie.to_string(),
        "foo=bar; Path=/; Domain=example.com; Max-Age=3600; Secure; HttpOnly; \
         SameSite=Strict"
    );
}

#[test]
fn cookies_it_can_parse_simple_cookies() {
    let cookie = ResponseCookie::from_str("foo=bar").unwrap();

    assert_eq!(cookie.name(), "foo");
    assert_eq!(cookie.value(), "bar");
}

#[test]
fn response_cookies_keep_only_name_and_value() {
    let cookie = ResponseCookie::from_str("  foo= bar ; Path=/; Secure").unwrap();

    assert_eq!(cookie.name(), "foo");
    assert_eq!(cookie.value(), "bar ");
    assert_eq!(cookie.path(), None);
    assert!(!cookie.secure());
    assert!(ResponseCookie::from_str("novalue").is_err());
}

#[test]
fn response_cookie_attributes_can_be_read_back() {
    let cookie = ResponseCookie::builder("a", "b")
        .name("session")
        .value("xyz")
        .max_age(Some(0))
        .same_site(Some(SameSite::CrossSite))
        .build();

    assert_eq!(cookie.name(), "session");
    assert_eq!(cookie.max_age(), Some(&0));
    assert_eq!(cookie.same_site(), Some(&SameSite::CrossSite));
    assert_eq!(cookie.to_string(), "session=xyz; Max-Age=0; SameSite=None");
}

#[test]
fn request_cookies_parse_lists() {
    let one = RequestCookie::from_str("a=1=2").unwrap();
    assert_eq!(one.name(), "a");
    assert_eq!(one.value(), "1");
    assert_eq!(RequestCookie::new("x", "y").to_string(), "x=y");

    let many = RequestCookie::many_from_str("a=1; b=2;c=3").unwrap();
    let names: Vec<&str> = many.iter().map(|c| c.name()).collect();
    assert_eq!(names, vec!["a", "b", "c"]);
    assert!(RequestCookie::many_from_str("a=1; broken").is_err());
}

#[test]
fn headers_read_the_cookie_header() {
    let mut headers = Headers::empty();
    headers.append("Cookie", "a=1; b=2".to_string());
    headers.set_cookie(&RequestCookie::new("c", "3"));

    assert_eq!(headers.cookies().len(), 3);
    assert!(headers.has_cookie("b"));
    assert!(headers.has_cookie("c"));
    assert!(!headers.has_cookie("d"));
    assert_eq!(headers.cookie("b").unwrap().value(), "2");

    headers.append("cookie", "broken".to_string());
    assert_eq!(headers.cookies().len(), 3);
    assert!(headers.has_cookie("a"));
}

#[test]
fn cookie_values_that_do_not_parse_are_skipped() {
    let mut headers = Headers::empty();
    headers.append("Cookie", "junk".to_string());
    headers.append("Cookie", "a=1".to_string());

    assert!(headers.has_cookie("a"));
    assert_eq!(headers.cookie("a").unwrap().value(), "1");
    assert_eq!(headers.cookies().len(), 1);
    assert!(Headers::empty().cookies().is_empty());
}

#[test]
fn headers_are_case_insensitive() {
    let mut headers = Headers::empty();

    assert!(headers.is_empty());
    headers.insert("Content-Type", "application/json".to_string());
    assert_eq!(headers.len(), 1);
    assert!(headers.has("content-type"));
    assert!(headers.is("CONTENT-TYPE", "application/json"));
    assert_eq!(headers.first("Content-Type"), Some("application/json"));

    headers.append("Content-Type", "text/plain".to_string());
    assert_eq!(headers.len_of("content-type"), 2);
    assert_eq!(
        headers.get("Content-Type"),
        Some(&vec!["application/json".to_string(), "text/plain".to_string()])
    );

    headers.insert("Content-Type", "text/html".to_string());
    assert_eq!(headers.get("Content-Type"), Some(&vec!["text/html".to_string()]));

    headers.insert_many("Accept", vec!["a".to_string(), "b".to_string()]);
    headers.append_many("accept", vec!["c".to_string()]);
    assert_eq!(headers.len_of("Accept"), 3);
    assert_eq!(headers.len(), 2);
    assert!(headers.contains("Accept", "a"));
    assert!(!headers.contains("Accept", "b"));

    assert_eq!(
        headers.iter(),
        vec![
            ("content-type".to_string(), "text/html".to_string()),
            ("accept".to_string(), "a".to_string()),
            ("accept".to_string(), "b".to_string()),
            ("accept".to_string(), "c".to_string()),
        ]
    );

    headers.remove("ACCEPT");
    assert_eq!(headers.get("Accept"), None);
    assert_eq!(headers.len_of("Accept"), 0);
    headers.clear();
    assert_eq!(headers.len(), 0);
}

#[test]
fn headers_can_be_built_from_pairs() {
    let headers = Headers::new(vec![
        ("X-A".to_string(), "1".to_string()),
        ("x-a".to_string(), "2".to_string()),
        ("X-B".to_string(), "3".to_string()),
    ]);

    assert_eq!(headers.len(), 2);
    assert_eq!(headers.len_of("X-A"), 2);
}

#[test]
fn query_strings_are_split_without_decoding() {
    assert_eq!(
        query_parameters("id=1&name=John%20Doe&flag"),
        vec![
            ("id".to_string(), "1".to_string()),
            ("name".to_string(), "John%20Doe".to_string())
        ]
    );
    assert!(query_parameters("").is_empty());

    let request = Request::new(
        Method::Get,
        "/users".to_string(),
        "id=1&id=2".to_string(),
        Headers::empty(),
        String::new(),
    );
    assert_eq!(request.query("id"), Some("2"));
    assert_eq!(request.query("age"), None);

    let request = request.parametrized(vec![("user".to_string(), "7".to_string())]);
    assert_eq!(request.route_parameter("user"), Some("7"));
}

#[test]
fn json_is_chosen_by_the_accept_header() {
    let mut headers = Headers::empty();
    assert!(!wants_json(&headers));
    headers.insert("Accept", "text/html, application/json".to_string());
    assert!(wants_json(&headers));
}

#[test]
fn errors_render_as_text() {
    let response = ErrorResponse::new().into_response();
    assert_eq!(response.status(), 500);
    assert_eq!(response.body(), "Internal Server Error");

    let response = ErrorResponse::new().status(404).into_response();
    assert_eq!(response.body(), "Not Found");

    let response = ErrorResponse::new().status(499).into_response();
    assert_eq!(response.body(), "Whops, there was an error.");

    let mut extra = Headers::empty();
    extra.insert("Retry-After", "5".to_string());
    let response = ErrorResponse::new()
        .status(503)
        .message("later")
        .headers(extra)
        .into_response();
    assert_eq!(response.status(), 503);
    assert_eq!(response.body(), "later");
    assert!(response.headers().has("retry-after"));
}

#[test]
fn errors_render_as_json() {
    let response = ErrorResponse::new().status(422).message("say \"hi\"").into_json_response();

    assert_eq!(response.status(), 422);
    assert_eq!(response.body(), r#"{"message":"say \"hi\""}"#);
    assert!(response.headers().is("Content-Type", "application/json"));

    let mut extra = Headers::empty();
    extra.insert("X-Trace", "7".to_string());
    let response = ErrorResponse::new().headers(extra).into_json_response();
    assert_eq!(response.body(), r#"{"message":"Internal Server Error"}"#);
    assert!(response.headers().is("x-trace", "7"));
    assert_eq!(response.headers().len(), 2);
}

#[test]
fn json_messages_are_escaped() {
    let response = ErrorResponse::new()
        .message("a\\b\n\t\u{1}\u{1f}é")
        .into_json_response();

    assert_eq!(response.body(), "{\"message\":\"a\\\\b\\n\\t\\u0001\\u001fé\"}");
}

#[test]
fn handler_failures_become_responses() {
    let response = error_response(HandlerError::Other("boom".to_string()), false);
    assert_eq!(response.status(), 500);
    assert_eq!(response.body(), "boom");
    assert!(response.headers().is_empty());

    let response = error_response(HandlerError::Other("boom".to_string()), true);
    assert_eq!(response.body(), r#"{"message":"boom"}"#);
    assert!(response.headers().is("Content-Type", "application/json"));

    let structured = ErrorResponse::new().status(401).message("who are you");
    let response = error_response(HandlerError::Structured(structured), true);
    assert_eq!(response.status(), 401);
    assert_eq!(response.body(), r#"{"message":"who are you"}"#);
}

#[test]
fn not_found_names_the_request() {
    let response = not_found(Method::Delete, "/x");

    assert_eq!(response.status(), 404);
    assert_eq!(response.body(), "No route found for DELETE /x");
}

#[test]
fn it_can_truncate_to_fit_str() {
    assert_eq!("/foo/bar/baz".truncate_to_fit(10), "/foo/ba...");
    assert_eq!("/foo/bar/baz".truncate_to_fit(100), "/foo/bar/baz");
}

#[test]
fn it_can_truncate_to_fit_strings() {
    assert_eq!("/foo/bar/baz".to_string().truncate_to_fit(10), "/foo/ba...");
    assert_eq!(
        "/foo/bar/baz".to_string().truncate_to_fit(100),
        "/foo/bar/baz"
    );
}

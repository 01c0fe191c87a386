use phatjs::headers::{name_lt, Headers};
use phatjs::outgoing::{
    build_outgoing, contains_name, decimal_string, default_user_agent, outgoing_with_host,
    resolve_body, RequestError,
};
use phatjs::request::{default_method, default_timeout, HttpRequest};

fn s(x: &str) -> String {
    x.to_string()
}

fn pairs(list: &[(&str, &str)]) -> Vec<(String, String)> {
    list.iter().map(|(k, v)| (s(k), s(v))).collect()
}

fn names_of(h: &[(String, String)], name: &str) -> Vec<String> {
    h.iter().filter(|(k, _)| k == name).map(|(_, v)| v.clone()).collect()
}

#[test]
fn defaults_of_a_request() {
    assert_eq!(default_method(), "GET");
    assert_eq!(default_timeout(), 30_000);
    let r = HttpRequest::new(s("http://example.com/"));
    assert_eq!(r.method, "GET");
    assert_eq!(r.timeout_ms, 30_000);
    assert!(r.body.is_empty());
    assert!(r.text_body.is_none());
    assert!(r.headers.pairs.is_empty());
}

#[test]
fn no_custom_headers_get_all_defaults() {
    let req = HttpRequest::new(s("http://echo.test:8080/path"));
    let out = build_outgoing(req).ok().unwrap();
    let h = out.headers.into_pairs();
    assert_eq!(names_of(&h, "Host"), vec![s("echo.test")]);
    assert_eq!(names_of(&h, "Content-Length"), vec![s("0")]);
    assert_eq!(names_of(&h, "User-Agent"), vec![s("PhatContract/0.1.0")]);
    assert_eq!(h.len(), 3);
    assert_eq!(out.method, "GET");
    assert_eq!(out.url, "http://echo.test:8080/path");
}

#[test]
fn caller_host_suppresses_default_host() {
    let mut req = HttpRequest::new(s("http://example.com/"));
    req.headers = Headers::from_pairs(pairs(&[("Host", "other.test")]));
    let out = outgoing_with_host(req, s("example.com"));
    let h = out.headers.into_pairs();
    assert_eq!(names_of(&h, "Host"), vec![s("other.test")]);
    assert_eq!(h[0], (s("Host"), s("other.test")));
}

#[test]
fn lowercase_host_does_not_suppress_default_host() {
    let mut req = HttpRequest::new(s("http://example.com/"));
    req.headers = Headers::from_pairs(pairs(&[("host", "other.test")]));
    let out = outgoing_with_host(req, s("example.com"));
    let h = out.headers.into_pairs();
    assert_eq!(h[0], (s("host"), s("other.test")));
    assert_eq!(h[1], (s("Host"), s("example.com")));
    assert_eq!(names_of(&h, "Host"), vec![s("example.com")]);
}

#[test]
fn text_body_replaces_raw_body() {
    let mut req = HttpRequest::new(s("http://example.com/"));
    req.body = vec![1, 2, 3];
    req.text_body = Some(s("hello"));
    let out = outgoing_with_host(req, s("example.com"));
    assert_eq!(out.body, b"hello".to_vec());
    let h = out.headers.into_pairs();
    assert_eq!(names_of(&h, "Content-Length"), vec![s("5")]);
}

#[test]
fn raw_body_used_without_text() {
    assert_eq!(resolve_body(None, vec![1, 2, 3]), vec![1, 2, 3]);
    assert_eq!(resolve_body(Some(s("é")), vec![1]), vec![0xc3, 0xa9]);
}

#[test]
fn caller_content_length_and_agent_are_kept() {
    let mut req = HttpRequest::new(s("http://example.com/"));
    req.headers = Headers::from_pairs(pairs(&[("Content-Length", "9"), ("User-Agent", "me")]));
    let out = outgoing_with_host(req, s("example.com"));
    let h = out.headers.into_pairs();
    assert_eq!(
        h,
        pairs(&[("Content-Length", "9"), ("User-Agent", "me"), ("Host", "example.com")])
    );
}

#[test]
fn pair_headers_keep_order_and_duplicates() {
    let mut req = HttpRequest::new(s("http://example.com/"));
    req.headers = Headers::from_pairs(pairs(&[("B", "2"), ("A", "1"), ("B", "3")]));
    let out = outgoing_with_host(req, s("example.com"));
    let h = out.headers.into_pairs();
    assert_eq!(&h[..3], &pairs(&[("B", "2"), ("A", "1"), ("B", "3")])[..]);
}

#[test]
fn ordered_pairs_reach_transport_in_order() {
    let h = Headers::from_pairs(pairs(&[("A", "1"), ("B", "2")]));
    assert_eq!(h.into_pairs(), pairs(&[("A", "1"), ("B", "2")]));
}

#[test]
fn mapping_headers_are_sorted_by_name() {
    let h = Headers::from_mapping(pairs(&[("B", "2"), ("A", "1")]));
    assert_eq!(h.into_pairs(), pairs(&[("A", "1"), ("B", "2")]));
    let h = Headers::from_mapping(pairs(&[("b", "1"), ("Ab", "2"), ("A", "3"), ("B", "4")]));
    assert_eq!(
        h.into_pairs(),
        pairs(&[("A", "3"), ("Ab", "2"), ("B", "4"), ("b", "1")])
    );
    let empty = Headers::from_mapping(Vec::new());
    assert!(empty.into_pairs().is_empty());
}

#[test]
fn headers_convert_both_ways() {
    let h: Headers = pairs(&[("X", "1")]).into();
    let back: Vec<(String, String)> = h.into();
    assert_eq!(back, pairs(&[("X", "1")]));
    let d = Headers::default();
    assert!(d.pairs.is_empty());
}

#[test]
fn name_order_is_character_order() {
    assert!(name_lt(&s("A"), &s("B")));
    assert!(!name_lt(&s("B"), &s("A")));
    assert!(name_lt(&s("A"), &s("AB")));
    assert!(!name_lt(&s("A"), &s("A")));
    assert!(name_lt(&s("Z"), &s("a")));
    assert!(name_lt(&s(""), &s("a")));
}

#[test]
fn header_presence_is_exact() {
    let h = pairs(&[("host", "x")]);
    assert!(!contains_name(&h, &s("Host")));
    assert!(contains_name(&h, &s("host")));
    assert!(!contains_name(&Vec::new(), &s("Host")));
}

#[test]
fn decimal_rendering() {
    assert_eq!(decimal_string(0), "0");
    assert_eq!(decimal_string(7), "7");
    assert_eq!(decimal_string(10), "10");
    assert_eq!(decimal_string(1234), "1234");
    assert_eq!(decimal_string(usize::MAX), usize::MAX.to_string());
    assert_eq!(default_user_agent(), "PhatContract/0.1.0");
}

#[test]
fn unparsable_url_is_rejected() {
    let req = HttpRequest::new(s(""));
    match build_outgoing(req) {
        Err(RequestError::UrlParse(u)) => assert_eq!(u, ""),
        _ => panic!("expected a url error"),
    }
    let req = HttpRequest::new(s("http://exa mple.com/"));
    assert!(matches!(build_outgoing(req), Err(RequestError::UrlParse(_))));
}

#[test]
fn url_without_host_gets_empty_host() {
    let req = HttpRequest::new(s("/relative/path"));
    let out = build_outgoing(req).ok().unwrap();
    let h = out.headers.into_pairs();
    assert_eq!(names_of(&h, "Host"), vec![s("")]);
}

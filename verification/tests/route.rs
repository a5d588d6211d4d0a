use multipass::error::Error;
use multipass::http::{RequestHead, Version};
use multipass::route::{parse_host, Recognize, RoutingTable};

fn request(uri: &str) -> RequestHead {
    RequestHead::new(Version::Http11, uri).unwrap()
}

fn host_only(host: &str) -> Recognize {
    Recognize { host: Some(host.to_string()), path_regex: None }
}

fn path_only(pattern: &str) -> Recognize {
    Recognize { host: None, path_regex: Some(pattern.to_string()) }
}

#[test]
fn authority() {
    let recognize = Recognize { host: Some("test.example.com".to_string()), path_regex: None };

    assert!(recognize.matches(&request("http://test.example.com/")));
    assert!(!recognize.matches(&request("http://foo.example.com/")));
    assert!(!recognize.matches(&request("http://example.com/")));
    assert!(recognize.matches(&request("http://test.example.com:8080/")));
    assert!(recognize.matches(&request("/").header("host", "test.example.com")));
    assert!(recognize.matches(&request("/foo/bar").header("host", "test.example.com")));
    assert!(!recognize.matches(&request("/").header("host", "example.com")));
    assert!(!recognize.matches(&request("/").header("host", "www.example.com")));
}

#[test]
fn host_header_with_port_matches_plain_host() {
    let recognize = host_only("example.com");
    assert!(recognize.matches(&request("/").header("host", "example.com:8080")));
    assert!(recognize.matches(&request("/").header("host", "example.com")));
    assert!(!recognize.matches(&request("/").header("host", "example.org:8080")));
}

#[test]
fn configured_port_does_not_count() {
    let recognize = host_only("example.com:443");
    assert!(recognize.matches(&request("http://example.com:8080/")));
    assert!(recognize.matches(&request("/").header("host", "example.com")));
}

#[test]
fn host_comparison_is_case_sensitive() {
    let recognize = host_only("example.com");
    assert!(!recognize.matches(&request("/").header("host", "Example.com")));
}

#[test]
fn host_header_that_is_no_authority_does_not_match() {
    let recognize = host_only("example.com");
    assert!(!recognize.matches(&request("/").header("host", "example.com/evil")));
    assert!(!recognize.matches(&request("/").header("host", "")));
}

#[test]
fn host_only_matcher_matches_any_path() {
    let recognize = host_only("printer.local");
    assert!(recognize.matches(&request("http://printer.local/")));
    assert!(recognize.matches(&request("http://printer.local/a/b/c?x=1")));
    assert!(recognize.matches(&request("/deep/path").header("host", "printer.local")));
    assert!(!recognize.matches(&request("http://scanner.local/")));
}

#[test]
fn path_only_matcher_matches_any_host() {
    let recognize = path_only("^/eclss/");
    assert!(recognize.matches(&request("http://a.example/eclss/status")));
    assert!(recognize.matches(&request("http://b.example/eclss/status")));
    assert!(recognize.matches(&request("/eclss/").header("host", "c.example")));
    assert!(!recognize.matches(&request("http://a.example/other")));
}

#[test]
fn matcher_with_both_criteria_needs_only_one() {
    let recognize = Recognize {
        host: Some("printer.local".to_string()),
        path_regex: Some("^/print".to_string()),
    };
    assert!(recognize.matches(&request("http://printer.local/other")));
    assert!(recognize.matches(&request("http://elsewhere.local/print/job")));
    assert!(recognize.matches(&request("http://printer.local/print")));
    assert!(!recognize.matches(&request("http://elsewhere.local/other")));
}

#[test]
fn matcher_without_criteria_matches_nothing() {
    let recognize = Recognize { host: None, path_regex: None };
    assert!(!recognize.matches(&request("http://printer.local/")));
    assert!(!recognize.matches(&request("/").header("host", "printer.local")));
}

#[test]
fn path_pattern_is_tried_on_the_path_without_the_query() {
    let recognize = path_only("^/a$");
    assert!(recognize.matches(&request("http://x.example/a?b=c")));
    let query = path_only("b=c");
    assert!(!query.matches(&request("http://x.example/a?b=c")));
}

#[test]
fn path_pattern_matches_anywhere_in_the_path() {
    let recognize = path_only("/eclss/*");
    assert!(recognize.matches(&request("http://x.example/eclss/x")));
    assert!(recognize.matches(&request("http://x.example/api/eclss")));
    assert!(!recognize.matches(&request("http://x.example/foo")));
}

#[test]
fn pattern_that_does_not_compile_matches_nothing() {
    let recognize = path_only("(");
    assert!(!recognize.matches(&request("http://x.example/(")));
    assert!(!recognize.path_matches(&request("http://x.example/(")));
}

#[test]
fn host_that_is_no_authority_matches_nothing() {
    let recognize = host_only("not a host");
    assert!(!recognize.matches(&request("/").header("host", "not a host")));
    assert!(!recognize.host_matches(&request("/").header("host", "not a host")));
}

#[test]
fn parse_host_takes_off_user_and_port() {
    assert_eq!(parse_host("example.com"), Some("example.com".to_string()));
    assert_eq!(parse_host("example.com:8080"), Some("example.com".to_string()));
    assert_eq!(parse_host("user:secret@example.com:8080"), Some("example.com".to_string()));
    assert_eq!(parse_host("[::1]:8080"), Some("[::1]".to_string()));
    assert_eq!(parse_host("[::1]"), Some("[::1]".to_string()));
    assert_eq!(parse_host(""), None);
    assert_eq!(parse_host("a b"), None);
}

fn table() -> RoutingTable {
    RoutingTable::from_iter(vec![
        (path_only("^/shared"), "first.local.".to_string()),
        (host_only("second.local"), "second.local.".to_string()),
        (path_only("^/shared/deeper"), "third.local.".to_string()),
        (host_only("second.local"), "fourth.local.".to_string()),
    ])
}

#[test]
fn first_configured_match_wins() {
    let routes = table();
    assert_eq!(routes.len(), 4);
    let name = routes.select(&request("http://second.local/shared/deeper")).unwrap();
    assert_eq!(name, "first.local.");
    let name = routes.select(&request("http://second.local/other")).unwrap();
    assert_eq!(name, "second.local.");
    let name = routes.select(&request("http://other.local/shared/deeper")).unwrap();
    assert_eq!(name, "first.local.");
}

#[test]
fn first_match_wins_in_reversed_table() {
    let routes = RoutingTable::from_iter(vec![
        (host_only("second.local"), "fourth.local.".to_string()),
        (path_only("^/shared/deeper"), "third.local.".to_string()),
        (host_only("second.local"), "second.local.".to_string()),
        (path_only("^/shared"), "first.local.".to_string()),
    ]);
    let name = routes.select(&request("http://second.local/shared/deeper")).unwrap();
    assert_eq!(name, "fourth.local.");
    let name = routes.select(&request("http://other.local/shared/deeper")).unwrap();
    assert_eq!(name, "third.local.");
    let name = routes.select(&request("http://other.local/shared")).unwrap();
    assert_eq!(name, "first.local.");
}

#[test]
fn request_without_route_fails_with_no_route() {
    let routes = table();
    match routes.select(&request("http://nowhere.local/else")) {
        Err(Error::NoRoute(uri)) => assert_eq!(uri, "http://nowhere.local/else"),
        other => panic!("expected NoRoute, got {:?}", other),
    }
    let empty = RoutingTable::from_iter(Vec::new());
    assert!(matches!(empty.select(&request("http://second.local/")), Err(Error::NoRoute(_))));
}

#[test]
fn request_target_that_does_not_parse_gives_no_head() {
    assert!(RequestHead::new(Version::Http11, "http://exa mple.com/").is_none());
    let head = request("http://user@example.com:81/a/b?c=d");
    assert_eq!(head.authority, Some("user@example.com:81".to_string()));
    assert_eq!(head.path, Some("/a/b".to_string()));
    assert_eq!(head.uri, "http://user@example.com:81/a/b?c=d");
    let origin = request("/a");
    assert_eq!(origin.authority, None);
    assert_eq!(origin.path, Some("/a".to_string()));
}

#[test]
fn first_header_of_a_name_is_kept() {
    let head = request("/").header("host", "a.example").header("host", "b.example");
    assert_eq!(head.host, Some("a.example".to_string()));
    let head = request("/").header("accept", "text/plain").header("x-other", "1");
    assert_eq!(head.accept, Some("text/plain".to_string()));
    assert_eq!(head.host, None);
    let head = request("/").header("content-type", "application/grpc");
    assert_eq!(head.content_type, Some("application/grpc".to_string()));
    let head = request("/").header("Host", "a.example").header("ACCEPT", "text/html");
    assert_eq!(head.host, Some("a.example".to_string()));
    assert_eq!(head.accept, Some("text/html".to_string()));
}

#[test]
fn parse_host_agrees_with_the_http_crate() {
    let texts = [
        "example.com",
        "example.com:8080",
        "user@example.com",
        "user:pw@example.com:80",
        "[::1]:80",
        "[fe80::1]",
        "localhost",
        "a.b.c.d:1",
        "",
        "a b",
        "http://x",
        "x/y",
        "[::1",
        "host:",
        ":80",
        "@host",
        "user@",
        "host:80:90",
        "[::1]x",
        "EXAMPLE.com",
        "xn--bcher-kva.example",
    ];
    for text in texts {
        let expected = text.parse::<http::uri::Authority>().ok().map(|a| a.host().to_string());
        assert_eq!(parse_host(text), expected, "for {:?}", text);
    }
}

#[test]
fn request_head_agrees_with_the_http_crate() {
    let targets = [
        "http://example.com/",
        "http://user@example.com:81/a/b?c=d",
        "/a/b?c=d",
        "*",
        "example.com:443",
        "https://[::1]:8443/x",
    ];
    for target in targets {
        let uri: http::Uri = target.parse().unwrap();
        let head = request(target);
        assert_eq!(head.authority, uri.authority().map(|a| a.as_str().to_string()));
        assert_eq!(head.path, uri.path_and_query().map(|p| p.path().to_string()));
        assert_eq!(head.uri, target);
    }
}

#[test]
fn hosts_agree_on_target_or_header() {
    let some = |s: &str| Some(s.to_string());
    assert!(Recognize::hosts_agree(&some("a.example"), &some("a.example"), &None));
    assert!(Recognize::hosts_agree(&some("a.example"), &None, &some("a.example")));
    assert!(Recognize::hosts_agree(&some("a.example"), &some("b.example"), &some("a.example")));
    assert!(!Recognize::hosts_agree(&some("a.example"), &some("b.example"), &None));
    assert!(!Recognize::hosts_agree(&some("a.example"), &None, &None));
    assert!(!Recognize::hosts_agree(&None, &some("a.example"), &some("a.example")));
    assert!(!Recognize::hosts_agree(&None, &None, &None));
    assert!(Recognize::pattern_found(Some(true)));
    assert!(!Recognize::pattern_found(Some(false)));
    assert!(!Recognize::pattern_found(None));
}

#[test]
fn request_head_from_parts() {
    let head = RequestHead::from_parts(
        Version::H2,
        "https://a.example/x?y",
        Some("a.example".to_string()),
        Some("/x".to_string()),
    );
    assert_eq!(head.version, Version::H2);
    assert_eq!(head.uri, "https://a.example/x?y");
    assert_eq!(head.authority, Some("a.example".to_string()));
    assert_eq!(head.path, Some("/x".to_string()));
    assert_eq!(head.host, None);
    assert_eq!(head.accept, None);
    assert_eq!(head.content_type, None);
    assert_eq!(head.client, None);
}

use nero_http::url::Url;

#[test]
fn parse_takes_an_absolute_url_apart() {
    let url = Url::parse("HTTPS://User:Pw@Example.COM:8443/a/b%20c?x=1&y=2#top").unwrap();
    assert_eq!(url.scheme, "https");
    assert_eq!(url.host, Some("example.com".to_string()));
    assert_eq!(url.port, Some(8443));
    assert_eq!(url.authority(), "example.com:8443");
    assert_eq!(url.path, "/a/b%20c");
    assert_eq!(url.query, Some("x=1&y=2".to_string()));
}

#[test]
fn parse_gives_an_empty_path_its_slash() {
    let url = Url::parse("http://example.com").unwrap();
    assert_eq!(url.scheme, "http");
    assert_eq!(url.host, Some("example.com".to_string()));
    assert_eq!(url.port, None);
    assert_eq!(url.authority(), "example.com");
    assert_eq!(url.path, "/");
    assert_eq!(url.query, None);
}

#[test]
fn parse_tells_an_empty_query_from_none() {
    assert_eq!(Url::parse("http://example.com/p?").unwrap().query, Some(String::new()));
    assert_eq!(Url::parse("http://example.com/p").unwrap().query, None);
}

#[test]
fn parse_leaves_out_a_default_port() {
    assert_eq!(Url::parse("http://example.com:80/").unwrap().authority(), "example.com");
    assert_eq!(Url::parse("http://example.com:81/").unwrap().authority(), "example.com:81");
    assert_eq!(Url::parse("https://example.com:443/").unwrap().port, None);
    assert_eq!(Url::parse("https://example.com:80/").unwrap().port, Some(80));
}

#[test]
fn parse_knows_urls_without_authority() {
    let url = Url::parse("mailto:someone@example.com").unwrap();
    assert_eq!(url.scheme, "mailto");
    assert_eq!(url.host, None);
    assert_eq!(url.port, None);
    assert_eq!(url.authority(), "");
    assert_eq!(url.path, "someone@example.com");
}

#[test]
fn parse_refuses_what_is_no_absolute_url() {
    for text in ["", "/relative", "example.com/path", "http://", "://x", "not a url"] {
        assert_eq!(Url::parse(text), None, "{text:?}");
    }
}

#[test]
fn the_authority_leaves_out_user_and_password() {
    for text in [
        "http://user:pw@example.com/x",
        "http://user@example.com/x",
        "http://:pw@example.com/x",
        "http://example.com/x",
    ] {
        let url = Url::parse(text).unwrap();
        assert_eq!(url.authority(), "example.com", "{text}");
    }
    let url = Url::parse("https://user:pw@example.com:8443/x").unwrap();
    assert_eq!(url.authority(), "example.com:8443");
}

#[test]
fn the_authority_keeps_the_brackets_of_an_ipv6_host() {
    let url = Url::parse("http://u@[::1]:8080/").unwrap();
    assert_eq!(url.host, Some("[::1]".to_string()));
    assert_eq!(url.authority(), "[::1]:8080");
    assert_eq!(Url::parse("http://127.0.0.1/").unwrap().authority(), "127.0.0.1");
}

#[test]
fn the_authority_is_built_from_host_and_port() {
    let mut url = Url {
        scheme: "https".to_string(),
        host: Some("example.org".to_string()),
        port: Some(65535),
        path: "/".to_string(),
        query: None,
    };
    assert_eq!(url.authority(), "example.org:65535");
    url.port = Some(0);
    assert_eq!(url.authority(), "example.org:0");
    url.port = None;
    assert_eq!(url.authority(), "example.org");
    url.host = None;
    url.port = Some(80);
    assert_eq!(url.authority(), "");
    let copy = url.clone();
    assert_eq!(copy, url);
}

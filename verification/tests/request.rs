use nero_http::error::{Error, JsonError};
use nero_http::fields::{Fields, HeaderError};
use nero_http::request::{
    copy_chunk, count_chunks, Method, OutgoingRequest, Request, Scheme, CHUNK_SIZE,
};
use nero_http::url::Url;

fn example_url() -> Url {
    Url {
        scheme: "https".to_string(),
        host: Some("example.com".to_string()),
        port: None,
        path: "/items".to_string(),
        query: None,
    }
}

#[test]
fn new_request_has_no_headers_and_no_body() {
    let request = Request::new(Method::Post, example_url());
    assert_eq!(*request.method(), Method::Post);
    assert_eq!(*request.url(), example_url());
    assert_eq!(request.headers().len(), 0);
    assert_eq!(request.body(), None);
}

#[test]
fn with_headers_replaces_the_whole_set() {
    let mut replacement = Fields::new();
    replacement.append("Accept", b"*/*").unwrap();
    let request = Request::new(Method::Get, example_url())
        .with_header("X-Old", "1")
        .unwrap()
        .with_headers(replacement);
    assert_eq!(
        request.headers().entries(),
        vec![("Accept".to_string(), b"*/*".to_vec())]
    );
}

#[test]
fn with_header_appends_one_header() {
    let request = Request::new(Method::Get, example_url())
        .with_header("Accept", "text/html")
        .unwrap()
        .with_header("accept", "text/plain")
        .unwrap();
    assert_eq!(
        request.headers().entries(),
        vec![
            ("Accept".to_string(), b"text/html".to_vec()),
            ("accept".to_string(), b"text/plain".to_vec()),
        ]
    );
    assert_eq!(request.body(), None);
}

#[test]
fn with_header_refuses_an_invalid_name() {
    let result = Request::new(Method::Get, example_url()).with_header("Bad\u{0}Name\n", "v");
    assert!(matches!(result, Err(Error::Header(HeaderError::InvalidSyntax))));
}

#[test]
fn with_header_refuses_an_invalid_value() {
    let result = Request::new(Method::Get, example_url()).with_header("X", "a\r\nb");
    assert!(matches!(result, Err(Error::Header(HeaderError::InvalidSyntax))));
}

#[test]
fn with_body_declares_the_exact_length() {
    let body = vec![7u8; 5000];
    let request = Request::new(Method::Put, example_url()).with_body(body.clone()).unwrap();
    assert_eq!(request.body(), Some(&body));
    assert_eq!(request.headers().get("Content-Length"), vec![b"5000".to_vec()]);
}

#[test]
fn with_body_of_nothing_declares_zero() {
    let request = Request::new(Method::Put, example_url()).with_body(Vec::new()).unwrap();
    assert_eq!(request.body(), Some(&Vec::new()));
    assert_eq!(request.headers().first("content-length"), Some(b"0".to_vec()));
}

#[test]
fn with_json_sets_type_length_and_body() {
    let text = "{\"name\":\"caf\u{e9}\"}".to_string();
    let request =
        Request::new(Method::Post, example_url()).with_json(Ok(text.clone())).unwrap();
    assert_eq!(
        request.headers().entries(),
        vec![
            ("Content-Type".to_string(), b"application/json; charset=UTF-8".to_vec()),
            ("Content-Length".to_string(), b"16".to_vec()),
        ]
    );
    assert_eq!(request.body(), Some(&text.into_bytes()));
}

#[test]
fn with_json_passes_an_encoding_failure_on() {
    let failure = JsonError { message: "key must be a string".to_string() };
    let result = Request::new(Method::Post, example_url()).with_json(Err(failure.clone()));
    match result {
        Err(error) => assert_eq!(error, Error::SerdeJson(failure)),
        Ok(_) => panic!("an encoding failure must fail the step"),
    }
}

#[test]
fn header_and_body_commute_for_other_names() {
    let one = Request::new(Method::Post, example_url())
        .with_header("X-Trace", "t")
        .unwrap()
        .with_body(b"abc".to_vec())
        .unwrap();
    let other = Request::new(Method::Post, example_url())
        .with_body(b"abc".to_vec())
        .unwrap()
        .with_header("X-Trace", "t")
        .unwrap();
    assert_eq!(one.body(), other.body());
    for name in ["x-trace", "content-length", "accept"] {
        assert_eq!(one.headers().get(name), other.headers().get(name));
    }
}

#[test]
fn building_twice_gives_the_same_request() {
    let build = || {
        Request::new(Method::Post, example_url())
            .with_header("Accept", "a")
            .unwrap()
            .with_body(b"payload".to_vec())
            .unwrap()
    };
    let (one, other) = (build(), build());
    assert_eq!(one.headers().entries(), other.headers().entries());
    assert_eq!(one.body(), other.body());
    assert_eq!(one.method(), other.method());
    assert_eq!(one.url(), other.url());
}

#[test]
fn from_url_maps_the_known_schemes() {
    let mut url = example_url();
    let head = OutgoingRequest::from_url(&url, &Method::Get, Fields::new());
    assert_eq!(head.scheme, Scheme::Https);
    url.scheme = "http".to_string();
    let head = OutgoingRequest::from_url(&url, &Method::Get, Fields::new());
    assert_eq!(head.scheme, Scheme::Http);
    url.scheme = "ftp".to_string();
    let head = OutgoingRequest::from_url(&url, &Method::Get, Fields::new());
    assert_eq!(head.scheme, Scheme::Other("ftp".to_string()));
}

#[test]
fn from_url_joins_path_and_query() {
    let mut url = example_url();
    let mut headers = Fields::new();
    headers.append("Accept", b"*/*").unwrap();
    let head = OutgoingRequest::from_url(&url, &Method::Other("PURGE".to_string()), headers);
    assert_eq!(head.method, Method::Other("PURGE".to_string()));
    assert_eq!(head.authority, "example.com");
    assert_eq!(head.path_with_query, "/items");
    assert_eq!(head.headers.entries(), vec![("Accept".to_string(), b"*/*".to_vec())]);
    url.query = Some("page=2&sort=asc".to_string());
    let head = OutgoingRequest::from_url(&url, &Method::Get, Fields::new());
    assert_eq!(head.path_with_query, "/items?page=2&sort=asc");
    url.query = Some(String::new());
    let head = OutgoingRequest::from_url(&url, &Method::Get, Fields::new());
    assert_eq!(head.path_with_query, "/items?");
}

#[test]
fn chunk_counts_round_up() {
    assert_eq!(CHUNK_SIZE, 4096);
    assert_eq!(count_chunks(&[]), 0);
    assert_eq!(count_chunks(&[0u8; 1]), 1);
    assert_eq!(count_chunks(&[0u8; 4096]), 1);
    assert_eq!(count_chunks(&[0u8; 4097]), 2);
    assert_eq!(count_chunks(&[0u8; 10000]), 3);
}

#[test]
fn chunks_cover_the_body_in_order() {
    let body: Vec<u8> = (0..10000u32).map(|i| (i % 251) as u8).collect();
    let chunks: Vec<Vec<u8>> =
        (0..count_chunks(&body)).map(|i| copy_chunk(&body, i)).collect();
    assert_eq!(chunks.iter().map(Vec::len).collect::<Vec<_>>(), vec![4096, 4096, 1808]);
    assert_eq!(chunks.concat(), body);
}

#[test]
fn a_refused_header_leaves_a_kept_copy_as_it_was() {
    let request = Request::new(Method::Post, example_url())
        .with_header("Accept", "a")
        .unwrap()
        .with_body(b"abc".to_vec())
        .unwrap();
    let kept = request.clone();
    let result = request.with_header("Bad Name", "v");
    assert!(matches!(result, Err(Error::Header(HeaderError::InvalidSyntax))));
    assert_eq!(*kept.method(), Method::Post);
    assert_eq!(*kept.url(), example_url());
    assert_eq!(kept.body(), Some(&b"abc".to_vec()));
    assert_eq!(
        kept.headers().entries(),
        vec![
            ("Accept".to_string(), b"a".to_vec()),
            ("Content-Length".to_string(), b"3".to_vec()),
        ]
    );
}

#[test]
fn a_step_on_a_copy_does_not_reach_the_other() {
    let first = Request::new(Method::Get, example_url()).with_header("A", "1").unwrap();
    let second = first.clone().with_header("B", "2").unwrap();
    assert_eq!(first.headers().len(), 1);
    assert_eq!(second.headers().len(), 2);
}

#[test]
fn the_body_length_stays_declared_while_building() {
    let request = Request::new(Method::Post, example_url());
    assert!(request.declares_body_length());
    let request = request.with_body(b"abcd".to_vec()).unwrap();
    assert!(request.declares_body_length());
    let request = request.with_header("content-length", "9").unwrap();
    assert!(request.declares_body_length());
    let request = request.with_body(b"ab".to_vec()).unwrap();
    assert!(request.declares_body_length());
    assert_eq!(
        request.headers().get("Content-Length"),
        vec![b"4".to_vec(), b"9".to_vec(), b"2".to_vec()]
    );
    let request = request.with_headers(Fields::new());
    assert!(!request.declares_body_length());
}

#[test]
fn from_url_leaves_the_credentials_out_of_the_authority() {
    let url = Url::parse("http://user:pw@example.com/x").unwrap();
    let head = OutgoingRequest::from_url(&url, &Method::Get, Fields::new());
    assert_eq!(head.authority(), Some("example.com".to_string()));
    assert_eq!(head.authority, "example.com");
    assert_eq!(head.scheme(), Some(Scheme::Http));
    assert_eq!(head.path_with_query(), Some("/x".to_string()));
    assert_eq!(head.method(), Method::Get);
    assert_eq!(head.headers().len(), 0);
    let url = Url::parse("https://user:pw@example.com:8443/x?y=1").unwrap();
    let head = OutgoingRequest::from_url(&url, &Method::Get, Fields::new());
    assert_eq!(head.authority(), Some("example.com:8443".to_string()));
}

#[test]
fn from_url_gives_a_url_without_host_the_empty_authority() {
    let url = Url::parse("mailto:someone@example.com").unwrap();
    let head = OutgoingRequest::from_url(&url, &Method::Get, Fields::new());
    assert_eq!(head.authority(), Some(String::new()));
    assert_eq!(head.scheme(), Some(Scheme::Other("mailto".to_string())));
    assert_eq!(head.path_with_query(), Some("someone@example.com".to_string()));
}

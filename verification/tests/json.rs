use nero_http::error::Error;
use nero_http::extension::Series;
use nero_http::fields::Fields;
use nero_http::json::Json;
use nero_http::kitsu::{
    decode_anime, decode_episodes, decode_search, has_next_page, AnimeData, EpisodeData,
    ImageResource,
};
use nero_http::request::{Method, Scheme};
use nero_http::response::{BodyReader, InputStream, Response};

fn body(chunks: &[&[u8]]) -> Response<InputStream> {
    let stream = InputStream::from_chunks(chunks.iter().map(|c| c.to_vec()).collect());
    Response::new(200, Fields::new(), stream)
}

fn document(text: &str) -> Json {
    Json::parse(text.as_bytes()).unwrap()
}

#[test]
fn parse_reads_every_kind_of_value() {
    let value = document(r#"{"s":"text","n":7,"neg":-1,"f":1.5,"t":true,"z":null,"a":[1,"x"]}"#);
    assert_eq!(value.get("s"), Some(&Json::String("text".to_string())));
    assert_eq!(value.get("s").unwrap().as_str(), Some("text"));
    assert_eq!(value.get("n"), Some(&Json::Number(Some(7))));
    assert_eq!(value.get("n").unwrap().as_u64(), Some(7));
    assert_eq!(value.get("neg"), Some(&Json::Number(None)));
    assert_eq!(value.get("f").unwrap().as_u64(), None);
    assert_eq!(value.get("t"), Some(&Json::Bool(true)));
    assert!(value.get("z").unwrap().is_null());
    assert_eq!(
        value.get("a").unwrap().as_array(),
        Some(&vec![Json::Number(Some(1)), Json::String("x".to_string())])
    );
    assert_eq!(value.get("missing"), None);
    assert_eq!(value.get("S"), None);
}

#[test]
fn accessors_refuse_other_kinds() {
    let text = Json::String("x".to_string());
    assert_eq!(text.get("x"), None);
    assert_eq!(text.as_u64(), None);
    assert_eq!(text.as_array(), None);
    assert!(!text.is_null());
    assert_eq!(Json::Null.as_str(), None);
    assert_eq!(Json::Number(Some(u64::MAX)).as_u64(), Some(u64::MAX));
}

#[test]
fn parse_keeps_the_last_of_two_members_with_one_name() {
    let value = document(r#"{"a":1,"a":2}"#);
    assert_eq!(value.get("a"), Some(&Json::Number(Some(2))));
}

#[test]
fn parse_refuses_what_is_no_json() {
    for text in ["", "{", "{\"a\":}", "[1,]", "nul", "{\"a\":1} x", "\u{feff}{}"] {
        let result = Json::parse(text.as_bytes());
        assert!(matches!(result, Err(Error::SerdeJson(_))), "{text:?}");
    }
    assert!(matches!(Json::parse(b"\"\xff\""), Err(Error::SerdeJson(_))));
}

#[test]
fn json_reads_the_whole_body() {
    let response = body(&[b"{\"da", b"ta\":", b"[1, 2]}"]);
    let value = response.json().unwrap();
    assert_eq!(
        value.get("data"),
        Some(&Json::Array(vec![Json::Number(Some(1)), Json::Number(Some(2))]))
    );
}

#[test]
fn json_fails_on_a_malformed_body() {
    assert!(matches!(body(&[b"{\"data\":"]).json(), Err(Error::SerdeJson(_))));
    assert!(matches!(body(&[]).json(), Err(Error::SerdeJson(_))));
}

#[test]
fn json_body_decodes_into_a_series() {
    let text = r#"{"data":{"id":"1","type":"anime","attributes":{"canonicalTitle":"X"}}}"#;
    let value = body(&[text.as_bytes()]).json().unwrap();
    let response = decode_anime(&value).unwrap();
    assert_eq!(response.data.id, "1");
    assert_eq!(response.data.type_, "anime");
    assert_eq!(response.data.attributes.canonical_title, "X");
    assert_eq!(response.data.attributes.synopsis, None);
    assert!(response.data.attributes.poster_image.is_none());
    let series = Series::from(response.data);
    assert_eq!(series.id, "1");
    assert_eq!(series.title, "X");
    assert_eq!(series.type_, Some("anime".to_string()));
    assert_eq!(series.synopsis, None);
    assert!(series.poster_resource.is_none());
}

#[test]
fn a_poster_becomes_a_get_for_its_address() {
    let value = document(
        r#"{"id":"7","type":"anime","attributes":{"canonicalTitle":"T","synopsis":"S",
            "posterImage":{"original":"https://media.example.com/p/7.jpg?v=2","tiny":"x"}}}"#,
    );
    let series = Series::from(AnimeData::from_json(&value).unwrap());
    assert_eq!(series.synopsis, Some("S".to_string()));
    let poster = series.poster_resource.unwrap();
    assert_eq!(poster.method, Method::Get);
    assert_eq!(poster.scheme, Scheme::Https);
    assert_eq!(poster.authority, "media.example.com");
    assert_eq!(poster.path_with_query, "/p/7.jpg?v=2");
    assert_eq!(poster.headers.len(), 0);
}

#[test]
fn a_poster_without_a_usable_address_is_no_resource() {
    for image in [r#"null"#, r#"{}"#, r#"{"original":null}"#, r#"{"original":"not a url"}"#] {
        let text = format!(
            r#"{{"id":"7","type":"anime","attributes":{{"canonicalTitle":"T","posterImage":{image}}}}}"#
        );
        let series = Series::from(AnimeData::from_json(&document(&text)).unwrap());
        assert!(series.poster_resource.is_none(), "{image}");
    }
}

#[test]
fn a_series_needs_id_type_and_title() {
    let good = r#"{"id":"1","type":"anime","attributes":{"canonicalTitle":"X"}}"#;
    assert!(AnimeData::from_json(&document(good)).is_some());
    for bad in [
        r#"{"type":"anime","attributes":{"canonicalTitle":"X"}}"#,
        r#"{"id":1,"type":"anime","attributes":{"canonicalTitle":"X"}}"#,
        r#"{"id":"1","attributes":{"canonicalTitle":"X"}}"#,
        r#"{"id":"1","type":"anime"}"#,
        r#"{"id":"1","type":"anime","attributes":{}}"#,
        r#"{"id":"1","type":"anime","attributes":{"canonicalTitle":null}}"#,
        r#"{"id":"1","type":"anime","attributes":{"canonicalTitle":"X","synopsis":3}}"#,
        r#"{"id":"1","type":"anime","attributes":{"canonicalTitle":"X","posterImage":"p"}}"#,
        r#"{"id":"1","type":"anime","attributes":{"canonicalTitle":"X","posterImage":{"original":1}}}"#,
        r#"["1","anime"]"#,
        r#""1""#,
    ] {
        assert!(AnimeData::from_json(&document(bad)).is_none(), "{bad}");
    }
}

#[test]
fn decode_anime_reports_a_mismatch() {
    for bad in [r#"{}"#, r#"{"data":[]}"#, r#"{"data":{"id":"1"}}"#, r#"[]"#] {
        match decode_anime(&document(bad)) {
            Err(Error::SerdeJson(e)) => {
                assert_eq!(e.message, "the document does not have the expected shape")
            }
            other => panic!("expected a mismatch for {bad}, got {other:?}"),
        }
    }
}

#[test]
fn decode_search_reads_every_series_in_order() {
    let value = document(
        r#"{"data":[
            {"id":"1","type":"anime","attributes":{"canonicalTitle":"One"}},
            {"id":"2","type":"manga","attributes":{"canonicalTitle":"Two","synopsis":null}}
        ]}"#,
    );
    let response = decode_search(&value).unwrap();
    let ids: Vec<&str> = response.data.iter().map(|a| a.id.as_str()).collect();
    assert_eq!(ids, vec!["1", "2"]);
    assert_eq!(response.data[1].type_, "manga");
    assert_eq!(response.data[1].attributes.canonical_title, "Two");
    assert!(decode_search(&document(r#"{"data":[]}"#)).unwrap().data.is_empty());
}

#[test]
fn decode_search_fails_if_one_series_does_not_fit() {
    let value = document(
        r#"{"data":[
            {"id":"1","type":"anime","attributes":{"canonicalTitle":"One"}},
            {"id":"2","type":"anime","attributes":{}}
        ]}"#,
    );
    assert!(matches!(decode_search(&value), Err(Error::SerdeJson(_))));
    assert!(matches!(decode_search(&document(r#"{"data":{}}"#)), Err(Error::SerdeJson(_))));
}

#[test]
fn decode_episodes_reads_numbers_and_optional_texts() {
    let value = document(
        r#"{"data":[
            {"id":"e1","attributes":{"number":1,"canonicalTitle":"Pilot","synopsis":"Begin",
                "thumbnail":{"original":"https://img.example.com/e1.png"}}},
            {"id":"e2","attributes":{"number":65535}}
        ],"links":{"next":"https://kitsu.io/api/edge/episodes?page[offset]=10"}}"#,
    );
    let response = decode_episodes(&value).unwrap();
    assert_eq!(response.data.len(), 2);
    assert_eq!(response.data[0].id, "e1");
    assert_eq!(response.data[0].attributes.number, 1);
    assert_eq!(response.data[0].attributes.canonical_title, Some("Pilot".to_string()));
    assert_eq!(response.data[0].attributes.synopsis, Some("Begin".to_string()));
    assert_eq!(
        response.data[0].attributes.thumbnail.as_ref().unwrap().original,
        Some("https://img.example.com/e1.png".to_string())
    );
    assert_eq!(response.data[1].attributes.number, 65535);
    assert_eq!(response.data[1].attributes.canonical_title, None);
    assert!(response.data[1].attributes.thumbnail.is_none());
    assert!(has_next_page(&value));
}

#[test]
fn an_episode_number_must_fit_sixteen_bits() {
    for number in ["65536", "-1", "1.0", "\"1\"", "null"] {
        let text = format!(r#"{{"id":"e","attributes":{{"number":{number}}}}}"#);
        assert!(EpisodeData::from_json(&document(&text)).is_none(), "{number}");
    }
    assert!(EpisodeData::from_json(&document(r#"{"id":"e","attributes":{}}"#)).is_none());
    let zero = EpisodeData::from_json(&document(r#"{"id":"e","attributes":{"number":0}}"#));
    assert_eq!(zero.unwrap().attributes.number, 0);
}

#[test]
fn a_next_page_is_named_by_a_string() {
    assert!(!has_next_page(&document(r#"{"data":[]}"#)));
    assert!(!has_next_page(&document(r#"{"links":{}}"#)));
    assert!(!has_next_page(&document(r#"{"links":{"next":null}}"#)));
    assert!(!has_next_page(&document(r#"{"links":null}"#)));
    assert!(has_next_page(&document(r#"{"links":{"next":"x"}}"#)));
}

#[test]
fn an_image_is_an_object() {
    assert_eq!(
        ImageResource::from_json(&document(r#"{"original":"u"}"#)).unwrap().original,
        Some("u".to_string())
    );
    assert_eq!(ImageResource::from_json(&document(r#"{}"#)).unwrap().original, None);
    assert!(ImageResource::from_json(&document(r#"[]"#)).is_none());
    assert!(ImageResource::from_json(&document(r#"{"original":[]}"#)).is_none());
}

#[test]
fn a_reader_gives_its_bytes_as_json() {
    let mut reader = BodyReader::new(Some(9));
    reader.accept(Some(b"{\"a\":".to_vec()));
    reader.accept(Some(b"[1]}xyz".to_vec()));
    reader.accept(None);
    let document = reader.into_json().unwrap();
    assert_eq!(document.get("a"), Some(&Json::Array(vec![Json::Number(Some(1))])));
    let mut reader = BodyReader::new(None);
    reader.accept(Some(b"{\"a\":".to_vec()));
    reader.accept(None);
    assert!(matches!(reader.into_json(), Err(Error::SerdeJson(_))));
}

use nero_http::fields::Fields;
use nero_http::response::{ceiling_of, BodyReader, InputStream, Response};

fn response(headers: &[(&str, &[u8])], chunks: &[&[u8]]) -> Response<InputStream> {
    let mut fields = Fields::new();
    for (name, value) in headers {
        fields.append(name, value).unwrap();
    }
    let body = InputStream::from_chunks(chunks.iter().map(|c| c.to_vec()).collect());
    Response::new(200, fields, body)
}

#[test]
fn reads_hand_out_chunks_up_to_the_bound() {
    let mut stream = InputStream::from_chunks(vec![b"hello".to_vec(), Vec::new(), b"wor".to_vec()]);
    assert_eq!(stream.blocking_read(2), Some(b"he".to_vec()));
    assert_eq!(stream.blocking_read(0), Some(Vec::new()));
    assert_eq!(stream.blocking_read(10), Some(b"llo".to_vec()));
    assert_eq!(stream.blocking_read(10), Some(Vec::new()));
    assert_eq!(stream.blocking_read(3), Some(b"wor".to_vec()));
    assert_eq!(stream.blocking_read(3), None);
    assert_eq!(stream.blocking_read(0), None);
}

#[test]
fn a_stream_without_chunks_is_closed() {
    let mut stream = InputStream::from_chunks(Vec::new());
    assert_eq!(stream.blocking_read(u64::MAX), None);
}

#[test]
fn bytes_without_content_length_joins_all_chunks() {
    let r = response(&[], &[b"alpha", b"", b"beta", b"gamma"]);
    assert_eq!(r.ceiling(), None);
    assert_eq!(r.bytes(), b"alphabetagamma".to_vec());
}

#[test]
fn bytes_with_exact_content_length_ignores_the_chunking() {
    let data: Vec<u8> = (0..1000u32).map(|i| (i % 7) as u8).collect();
    let whole: Vec<&[u8]> = vec![&data];
    let halves: Vec<&[u8]> = vec![&data[..500], &data[500..]];
    let ragged: Vec<&[u8]> = vec![&data[..1], &data[1..1], &data[1..999], &data[999..]];
    let single: Vec<&[u8]> = data.chunks(1).collect();
    for chunks in [whole, halves, ragged, single] {
        let r = response(&[("Content-Length", b"1000")], &chunks);
        assert_eq!(r.ceiling(), Some(1000));
        let body = r.bytes();
        assert_eq!(body.len(), 1000);
        assert_eq!(body, data);
    }
}

#[test]
fn bytes_stops_at_the_ceiling() {
    let r = response(&[("content-length", b"7")], &[b"abcd", b"efgh", b"ijkl"]);
    assert_eq!(r.bytes(), b"abcdefg".to_vec());
    let r = response(&[("Content-Length", b"0")], &[b"abcd"]);
    assert_eq!(r.bytes(), Vec::<u8>::new());
}

#[test]
fn bytes_of_a_short_stream_is_what_there_was() {
    let r = response(&[("Content-Length", b"100")], &[b"abc", b"de"]);
    assert_eq!(r.bytes(), b"abcde".to_vec());
    let r = response(&[("Content-Length", b"100")], &[]);
    assert_eq!(r.bytes(), Vec::<u8>::new());
}

#[test]
fn an_unreadable_content_length_is_no_ceiling() {
    for value in [&b"ten"[..], b"-1", b"", b"1e3", b"18446744073709551616", b"\xff"] {
        let r = response(&[("Content-Length", value)], &[b"abc", b"def"]);
        assert_eq!(r.ceiling(), None);
        assert_eq!(r.bytes(), b"abcdef".to_vec());
    }
}

#[test]
fn the_first_content_length_decides() {
    let r = response(
        &[("Content-Length", b"2"), ("Content-Length", b"5")],
        &[b"abcdef"],
    );
    assert_eq!(r.ceiling(), Some(2));
    assert_eq!(r.bytes(), b"ab".to_vec());
    let r = response(&[("Content-Length", b"+4")], &[b"abcdef"]);
    assert_eq!(r.bytes(), b"abcd".to_vec());
}

#[test]
fn text_decodes_utf8() {
    let r = response(&[], &["gr\u{fc}".as_bytes(), "\u{df}e".as_bytes()]);
    assert_eq!(r.text(), "gr\u{fc}\u{df}e");
}

#[test]
fn text_replaces_what_is_not_utf8() {
    let r = response(&[], &[b"a\xffb", b"\xc3"]);
    assert_eq!(r.text(), "a\u{fffd}b\u{fffd}");
    // A character cut in two by the chunking is whole again in the body.
    let r = response(&[], &[b"\xc3", b"\xa9"]);
    assert_eq!(r.text(), "\u{e9}");
}

#[test]
fn input_stream_hands_out_the_unread_body() {
    let r = response(&[("Content-Length", b"1")], &[b"abc", b"de"]);
    let mut stream = r.input_stream();
    assert_eq!(stream.blocking_read(4096), Some(b"abc".to_vec()));
    assert_eq!(stream.blocking_read(4096), Some(b"de".to_vec()));
    assert_eq!(stream.blocking_read(4096), None);
}

#[test]
fn status_and_headers_are_kept() {
    let mut fields = Fields::new();
    fields.append("Server", b"test").unwrap();
    let r = Response::new(404, fields, InputStream::from_chunks(Vec::new()));
    assert_eq!(r.status_code, 404);
    assert_eq!(r.headers.first("server"), Some(b"test".to_vec()));
}

#[test]
fn a_reader_asks_for_what_is_left_under_the_ceiling() {
    let mut reader = BodyReader::new(Some(10));
    assert_eq!(reader.bound(), 10);
    assert!(!reader.is_done());
    reader.accept(Some(b"abcd".to_vec()));
    assert_eq!(reader.bound(), 6);
    reader.accept(Some(Vec::new()));
    assert_eq!(reader.bound(), 6);
    reader.accept(Some(b"efghij".to_vec()));
    assert_eq!(reader.bound(), 0);
    assert!(!reader.is_done());
    reader.accept(None);
    assert!(reader.is_done());
    assert_eq!(reader.into_bytes(), b"abcdefghij".to_vec());
}

#[test]
fn a_reader_without_ceiling_reads_until_the_stream_closes() {
    let mut reader = BodyReader::new(None);
    for chunk in [&b"A1"[..], b"", b"B22", b"C"] {
        assert_eq!(reader.bound(), u64::MAX);
        reader.accept(Some(chunk.to_vec()));
        assert!(!reader.is_done());
    }
    reader.accept(None);
    assert!(reader.is_done());
    assert_eq!(reader.into_bytes(), b"A1B22C".to_vec());
}

#[test]
fn a_reader_ends_after_the_read_at_the_ceiling() {
    let mut reader = BodyReader::new(Some(3));
    reader.accept(Some(b"abc".to_vec()));
    assert_eq!(reader.bound(), 0);
    assert!(!reader.is_done());
    reader.accept(Some(Vec::new()));
    assert!(reader.is_done());
    assert_eq!(reader.into_bytes(), b"abc".to_vec());
}

#[test]
fn a_reader_takes_no_more_than_it_asked_for() {
    let mut reader = BodyReader::new(Some(2));
    reader.accept(Some(b"abcdef".to_vec()));
    assert_eq!(reader.bound(), 0);
    reader.accept(None);
    assert_eq!(reader.into_bytes(), b"ab".to_vec());
}

#[test]
fn ceiling_of_reads_the_first_content_length() {
    let mut headers = Fields::new();
    assert_eq!(ceiling_of(&headers), None);
    headers.append("content-length", b"42").unwrap();
    headers.append("Content-Length", b"7").unwrap();
    assert_eq!(ceiling_of(&headers), Some(42));
}

#[test]
fn a_response_begins_its_reading_from_its_headers() {
    let r = response(&[("Content-Length", b"3")], &[b"abcdef"]);
    let mut reader = r.reader();
    assert_eq!(reader.bound(), 3);
    assert!(!reader.is_done());
    let mut stream = r.input_stream();
    while !reader.is_done() {
        let bound = reader.bound();
        reader.accept(stream.blocking_read(bound));
    }
    assert_eq!(reader.into_bytes(), b"abc".to_vec());
    // What lay beyond the ceiling is still in the stream.
    assert_eq!(stream.blocking_read(10), Some(b"def".to_vec()));
    assert_eq!(response(&[], &[]).reader().bound(), u64::MAX);
}

#[test]
fn a_reader_gives_its_bytes_as_text() {
    let mut reader = BodyReader::new(None);
    reader.accept(Some("gr\u{fc}".as_bytes().to_vec()));
    reader.accept(Some(vec![0xff]));
    reader.accept(None);
    assert_eq!(reader.into_text(), "gr\u{fc}\u{fffd}");
}

#[test]
fn a_response_can_carry_any_kind_of_stream() {
    let mut headers = Fields::new();
    headers.append("Content-Length", b"9").unwrap();
    let r = Response::new(200, headers, "handle");
    assert_eq!(r.ceiling(), Some(9));
    assert_eq!(r.reader().bound(), 9);
    assert_eq!(r.input_stream(), "handle");
}

use hydra::encoding::{ContentCodings, SupportedEncoding};
use hydra::error::{Error, TimeoutError};
use hydra::fetch::{
    judge_response, process_response, read_response, transport_error, Reply, TransportFailure,
};
use hyper::header::{HeaderMap, HeaderValue};
use std::io::Write;
use xz2::write::XzEncoder;

fn url() -> String {
    String::from("http://h/x")
}

fn headers(coding: Option<&str>) -> HeaderMap {
    let mut headers = HeaderMap::new();
    if let Some(coding) = coding {
        headers.insert("content-encoding", HeaderValue::from_str(coding).unwrap());
    }
    headers
}

fn xz(content: &[u8]) -> Vec<u8> {
    let mut encoder = XzEncoder::new(Vec::new(), 6);
    encoder.write_all(content).unwrap();
    encoder.finish().unwrap()
}

fn read(
    encoding: Option<SupportedEncoding>,
    status: u16,
    headers: &HeaderMap,
    chunks: &Vec<Vec<u8>>,
) -> Result<(String, Option<Vec<u8>>), Error> {
    read_response(url(), encoding, status, headers, chunks, None)
}

#[test]
fn a_missing_page_is_no_error() {
    let chunks = vec![b"not found".to_vec()];
    assert_eq!(read(None, 404, &headers(None), &chunks), Ok((url(), None)));
    assert_eq!(
        read(Some(SupportedEncoding::Xz), 404, &headers(Some("gzip")), &chunks),
        Ok((url(), None))
    );
}

#[test]
fn other_statuses_are_errors() {
    for status in [100u16, 199, 300, 301, 400, 403, 405, 500, 503, 999] {
        assert_eq!(
            read(None, status, &headers(None), &vec![]),
            Err(Error::Http(url(), status))
        );
    }
}

#[test]
fn success_gives_the_content() {
    for status in [200u16, 204, 299] {
        assert_eq!(
            read(None, status, &headers(None), &vec![b"ab".to_vec(), b"c".to_vec()]),
            Ok((url(), Some(b"abc".to_vec())))
        );
    }
}

#[test]
fn the_header_tells_the_encoding() {
    assert_eq!(
        read(None, 200, &headers(Some("xz")), &vec![xz(b"content")]),
        Ok((url(), Some(b"content".to_vec())))
    );
}

#[test]
fn a_given_encoding_wins() {
    let chunks = vec![xz(b"content")];
    for coding in [None, Some("br"), Some("gzip")] {
        assert_eq!(
            read(Some(SupportedEncoding::Xz), 200, &headers(coding), &chunks),
            Ok((url(), Some(b"content".to_vec())))
        );
    }
}

#[test]
fn unsupported_encodings_are_errors() {
    assert_eq!(
        read(None, 200, &headers(Some("gzip, br")), &vec![]),
        Err(Error::UnsupportedEncoding(
            url(),
            Some(vec![String::from("gzip"), String::from("br")])
        ))
    );
}

#[test]
fn undecodable_bodies_are_errors() {
    assert_eq!(
        read(None, 200, &headers(Some("xz")), &vec![b"this is plain text".to_vec()]),
        Err(Error::Decode(url(), String::from("stream/file format not recognized")))
    );
}

#[test]
fn a_body_that_breaks_off_is_an_error() {
    let broken = || Some(TransportFailure::Client(String::from("reset"), None));
    let packed = xz(b"content");
    let begun = vec![packed[..20].to_vec()];
    for (coding, chunks) in [(Some("xz"), &begun), (None, &begun), (Some("xz"), &vec![])] {
        assert_eq!(
            read_response(url(), None, 200, &headers(coding), chunks, broken()),
            Err(Error::Hyper(String::from("reset"), None))
        );
    }
    // What had been refused before counts.
    let refused = vec![b"this is no xz".to_vec(), b"at all".to_vec()];
    assert_eq!(
        read_response(url(), None, 200, &headers(Some("xz")), &refused, broken()),
        Err(Error::Decode(url(), String::from("stream/file format not recognized")))
    );
    let refused = vec![vec![0xff; 20], vec![0xff; 20]];
    assert_eq!(
        read_response(url(), None, 200, &headers(Some("br")), &refused, broken()),
        Err(Error::Decode(url(), String::from("brotli error")))
    );
    // A status that is no success needs no body.
    assert_eq!(
        read_response(url(), None, 404, &headers(None), &refused, broken()),
        Ok((url(), None))
    );
}

#[test]
fn chunks_have_no_influence() {
    let packed = xz(b"some content");
    let whole = read(None, 200, &headers(Some("xz")), &vec![packed.clone()]);
    assert_eq!(whole, Ok((url(), Some(b"some content".to_vec()))));
    let bytes: Vec<Vec<u8>> = packed.iter().map(|byte| vec![*byte]).collect();
    assert_eq!(read(None, 200, &headers(Some("xz")), &bytes), whole);
}

#[test]
fn a_body_can_arrive_bit_by_bit() {
    match process_response(url(), None, 200, &headers(None)) {
        Ok(Reply::Found(download)) => {
            let download = download.feed(b"a").feed(b"").feed(b"bc");
            assert_eq!(download.finish(), Ok((url(), Some(b"abc".to_vec()))));
        }
        _ => panic!(),
    }
}

#[test]
fn a_body_that_is_refused_need_not_be_waited_for() {
    for (coding, chunk, cause) in [
        ("xz", b"this is no xz at all".to_vec(), "stream/file format not recognized"),
        ("br", vec![0xff; 40], "brotli error"),
    ] {
        match process_response(url(), None, 200, &headers(Some(coding))) {
            Ok(Reply::Found(download)) => {
                assert_eq!(download.refused(), None);
                let download = download.feed(&chunk);
                assert_eq!(download.refused(), Some(String::from(cause)));
                assert_eq!(download.finish(), Err(Error::Decode(url(), String::from(cause))));
            }
            _ => panic!(),
        }
    }
    match process_response(url(), None, 200, &headers(None)) {
        Ok(Reply::Found(download)) => assert_eq!(download.feed(b"any").refused(), None),
        _ => panic!(),
    }
}

#[test]
fn codings_are_judged() {
    match judge_response(url(), None, 200, ContentCodings::Malformed) {
        Ok(Reply::Found(download)) => {
            assert_eq!(download.finish(), Ok((url(), Some(vec![]))));
        }
        _ => panic!(),
    }
    assert!(matches!(
        judge_response(url(), None, 404, ContentCodings::Absent),
        Ok(Reply::NotFound(_))
    ));
}

#[test]
fn transport_failures_are_errors() {
    assert_eq!(transport_error(TransportFailure::Elapsed), Error::Timeout);
    assert_eq!(
        transport_error(TransportFailure::Timer(TimeoutError(String::from("t")))),
        Error::TimerError(String::from("t"))
    );
    assert_eq!(
        transport_error(TransportFailure::Client(String::from("m"), Some(String::from("c")))),
        Error::Hyper(String::from("m"), Some(String::from("c")))
    );
}

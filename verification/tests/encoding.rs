use brotli2::write::{BrotliDecoder, BrotliEncoder};
use hydra::encoding::{
    compute_encoding, content_codings, judge_brotli, select_encoding, BodyDecoder, BrotliBody,
    ContentCodings, SupportedEncoding,
};
use hydra::error::Error;
use hyper::header::{HeaderMap, HeaderValue};
use std::io::Write;
use xz2::write::{XzDecoder, XzEncoder};

fn headers(values: &[&str]) -> HeaderMap {
    let mut headers = HeaderMap::new();
    headers.insert("content-type", HeaderValue::from_static("text/plain"));
    for value in values {
        headers.append("content-encoding", HeaderValue::from_str(value).unwrap());
    }
    headers
}

fn listed(names: &[&str]) -> ContentCodings {
    ContentCodings::Listed(names.iter().map(|name| String::from(*name)).collect())
}

fn decode(encoding: SupportedEncoding, chunks: &[&[u8]]) -> Result<Vec<u8>, Error> {
    let url = String::from("u");
    let mut decoder = BodyDecoder::new(encoding);
    for chunk in chunks {
        decoder = decoder.feed(chunk);
    }
    decoder.finish(&url)
}

fn xz(content: &[u8]) -> Vec<u8> {
    let mut encoder = XzEncoder::new(Vec::new(), 6);
    encoder.write_all(content).unwrap();
    encoder.finish().unwrap()
}

fn brotli(content: &[u8]) -> Vec<u8> {
    let mut encoder = BrotliEncoder::new(Vec::new(), 6);
    encoder.write_all(content).unwrap();
    encoder.finish().unwrap()
}

#[test]
fn codings_are_read_from_the_headers() {
    assert_eq!(content_codings(&headers(&[])), ContentCodings::Absent);
    assert_eq!(content_codings(&headers(&["br"])), listed(&["br"]));
    assert_eq!(content_codings(&headers(&["gzip, br", "xz"])), listed(&["gzip", "br", "xz"]));
    assert_eq!(content_codings(&headers(&["a b"])), ContentCodings::Malformed);
    assert_eq!(content_codings(&headers(&[""])), ContentCodings::Malformed);
}

#[test]
fn no_header_means_identity() {
    assert_eq!(compute_encoding(&headers(&[])), Some(SupportedEncoding::Identity));
    assert_eq!(compute_encoding(&HeaderMap::new()), Some(SupportedEncoding::Identity));
}

#[test]
fn malformed_headers_mean_identity() {
    assert_eq!(compute_encoding(&headers(&["a b"])), Some(SupportedEncoding::Identity));
    assert_eq!(compute_encoding(&headers(&[" , "])), Some(SupportedEncoding::Identity));
}

#[test]
fn supported_encodings_are_recognized() {
    assert_eq!(compute_encoding(&headers(&["br"])), Some(SupportedEncoding::Brotli));
    assert_eq!(compute_encoding(&headers(&["BR"])), Some(SupportedEncoding::Brotli));
    assert_eq!(compute_encoding(&headers(&["identity"])), Some(SupportedEncoding::Identity));
    assert_eq!(compute_encoding(&headers(&["xz"])), Some(SupportedEncoding::Xz));
}

#[test]
fn other_encodings_are_not_supported() {
    assert_eq!(compute_encoding(&headers(&["gzip"])), None);
    assert_eq!(compute_encoding(&headers(&["deflate"])), None);
    assert_eq!(compute_encoding(&headers(&["unheard-of"])), None);
}

#[test]
fn the_first_coding_decides() {
    assert_eq!(compute_encoding(&headers(&["br, gzip"])), Some(SupportedEncoding::Brotli));
    assert_eq!(compute_encoding(&headers(&["gzip, br"])), None);
    assert_eq!(select_encoding(&listed(&["xz", "br"])), Some(SupportedEncoding::Xz));
    assert_eq!(select_encoding(&listed(&[])), Some(SupportedEncoding::Identity));
}

#[test]
fn plain_bodies_are_concatenated() {
    assert_eq!(decode(SupportedEncoding::Identity, &[]), Ok(vec![]));
    assert_eq!(
        decode(SupportedEncoding::Identity, &[b"ab", b"", b"c"]),
        decode(SupportedEncoding::Identity, &[b"abc"])
    );
    assert_eq!(decode(SupportedEncoding::Identity, &[b"ab", b"", b"c"]), Ok(b"abc".to_vec()));
}

#[test]
fn xz_bodies_are_decoded() {
    let content: Vec<u8> = (0..5000u32).map(|i| (i * i % 251) as u8).collect();
    let packed = xz(&content);
    assert_eq!(decode(SupportedEncoding::Xz, &[&packed]), Ok(content.clone()));
    let (a, b) = packed.split_at(packed.len() / 2);
    assert_eq!(decode(SupportedEncoding::Xz, &[a, b]), Ok(content));
}

#[test]
fn brotli_bodies_are_decoded() {
    let content: Vec<u8> = (0..5000u32).map(|i| (i * i % 251) as u8).collect();
    let packed = brotli(&content);
    assert_eq!(decode(SupportedEncoding::Brotli, &[&packed]), Ok(content.clone()));
    let (a, b) = packed.split_at(packed.len() / 2);
    assert_eq!(decode(SupportedEncoding::Brotli, &[a, b]), Ok(content));
}

fn refused(cause: &str) -> Result<Vec<u8>, Error> {
    Err(Error::Decode(String::from("u"), String::from(cause)))
}

fn failure(encoding: SupportedEncoding, body: &[u8]) -> Option<String> {
    BodyDecoder::new(encoding).feed(body).failure()
}

#[test]
fn nothing_may_follow_a_compressed_stream() {
    let mut packed = xz(b"some content");
    packed.push(0);
    let error = refused("failed to write whole buffer");
    assert_eq!(decode(SupportedEncoding::Xz, &[&packed]), error);
    assert!(failure(SupportedEncoding::Xz, &packed).is_some());
    let mut packed = brotli(b"some content");
    assert_eq!(decode(SupportedEncoding::Brotli, &[&packed, b"", b"more"]), error);
    packed.push(0);
    assert_eq!(decode(SupportedEncoding::Brotli, &[&packed]), error);
    assert!(failure(SupportedEncoding::Brotli, &packed).is_some());
}

#[test]
fn chunks_of_any_size_are_joined() {
    let content: Vec<u8> = (0..3000u32).map(|i| (i % 256) as u8).collect();
    for encoding in
        [SupportedEncoding::Xz, SupportedEncoding::Brotli, SupportedEncoding::Identity]
    {
        let packed = match encoding {
            SupportedEncoding::Xz => xz(&content),
            SupportedEncoding::Brotli => brotli(&content),
            SupportedEncoding::Identity => content.clone(),
        };
        for size in [1usize, 7, 100, 10000] {
            let chunks: Vec<&[u8]> = packed.chunks(size).collect();
            assert_eq!(decode(encoding, &chunks), Ok(content.clone()));
        }
    }
}

#[test]
fn empty_bodies_hold_nothing_compressed() {
    assert_eq!(
        decode(SupportedEncoding::Xz, &[]),
        refused("xz compressed stream is truncated or otherwise corrupt")
    );
    assert_eq!(
        decode(SupportedEncoding::Brotli, &[]),
        refused("brotli compressed stream is truncated or otherwise corrupt")
    );
}

#[test]
fn broken_bodies_are_decode_errors() {
    assert_eq!(
        decode(SupportedEncoding::Xz, &[b"this is not xz at all"]),
        refused("stream/file format not recognized")
    );
    let packed = xz(b"some content");
    assert_eq!(
        decode(SupportedEncoding::Xz, &[&packed[..packed.len() - 5]]),
        refused("xz compressed stream is truncated or otherwise corrupt")
    );
    let packed = brotli(b"some content that is long enough to be compressed, compressed");
    assert_eq!(
        decode(SupportedEncoding::Brotli, &[&packed[..packed.len() - 5]]),
        refused("brotli compressed stream is truncated or otherwise corrupt")
    );
    assert_eq!(
        decode(SupportedEncoding::Brotli, &[&[0xff; 40][..]]),
        refused("brotli error")
    );
}

#[test]
fn the_beginning_of_a_body_is_not_refused() {
    let content: Vec<u8> = (0..3000u32).map(|i| (i * i % 251) as u8).collect();
    for (encoding, packed) in [
        (SupportedEncoding::Xz, xz(&content)),
        (SupportedEncoding::Brotli, brotli(&content)),
        (SupportedEncoding::Identity, content.clone()),
    ] {
        for end in 0..=packed.len() {
            assert_eq!(failure(encoding, &packed[..end]), None);
        }
    }
    assert_eq!(
        failure(SupportedEncoding::Xz, b"this is not xz at all"),
        Some(String::from("stream/file format not recognized"))
    );
    assert_eq!(
        failure(SupportedEncoding::Brotli, &[0xff; 40]),
        Some(String::from("brotli error"))
    );
}

#[test]
fn brotli_bodies_are_judged() {
    assert_eq!(judge_brotli(Ok((vec![1], 0))), BrotliBody::Whole(vec![1]));
    assert_eq!(
        judge_brotli(Ok((vec![1], 2))),
        BrotliBody::Refused(String::from("failed to write whole buffer"))
    );
    assert_eq!(
        judge_brotli(Err(String::from("corrupted brotli stream"))),
        BrotliBody::Begun
    );
    assert_eq!(
        judge_brotli(Err(String::from("c"))),
        BrotliBody::Refused(String::from("c"))
    );
}

#[test]
fn causes_are_those_of_the_decoders_that_are_written_to() {
    let content: Vec<u8> = (0..3000u32).map(|i| (i * i % 251) as u8).collect();
    let bodies = |packed: Vec<u8>| {
        let mut longer = packed.clone();
        longer.extend_from_slice(b"more");
        let mut other = packed.clone();
        other[packed.len() / 2] ^= 0xff;
        vec![packed[..packed.len() / 2].to_vec(), longer, other, vec![0xff; 40], vec![], packed]
    };
    for body in bodies(brotli(&content)) {
        let mut decoder = BrotliDecoder::new(Vec::new());
        let expected = decoder.write_all(&body).and_then(|_| decoder.finish());
        assert_eq!(
            decode(SupportedEncoding::Brotli, &[&body]),
            expected.map_err(|error| Error::Decode(String::from("u"), error.to_string()))
        );
    }
    for body in bodies(xz(&content)) {
        let mut decoder = XzDecoder::new(Vec::new());
        let expected = decoder.write_all(&body).and_then(|_| decoder.finish());
        assert_eq!(
            decode(SupportedEncoding::Xz, &[&body]),
            expected.map_err(|error| Error::Decode(String::from("u"), error.to_string()))
        );
    }
}

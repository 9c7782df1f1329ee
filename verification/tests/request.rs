use hydra::error::Error;
use hydra::request::{make_request, request_to, CONNECT_TIMEOUT_MS};

#[test]
fn requests_offer_codings() {
    let head = make_request(&String::from("https://cache.nixos.org/abc.ls")).unwrap();
    assert_eq!(head.uri, "https://cache.nixos.org/abc.ls");
    assert_eq!(head.headers.len(), 1);
    assert_eq!(head.headers.get("accept-encoding").unwrap(), "br, gzip, deflate");
}

#[test]
fn uris_are_normalized() {
    assert_eq!(make_request(&String::from("http://host")).unwrap().uri, "http://host/");
}

#[test]
fn urls_must_be_uris() {
    assert_eq!(
        make_request(&String::from("http://host/with space")).err(),
        Some(Error::Url(String::from("invalid uri character")))
    );
    assert_eq!(
        make_request(&String::new()).err(),
        Some(Error::Url(String::from("empty string")))
    );
}

#[test]
fn the_result_of_parsing_decides() {
    let head = request_to(Ok(String::from("u"))).unwrap();
    assert_eq!(head.uri, "u");
    assert_eq!(head.headers.get("accept-encoding").unwrap(), "br, gzip, deflate");
    assert_eq!(
        request_to(Err(String::from("bad"))).err(),
        Some(Error::Url(String::from("bad")))
    );
}

#[test]
fn connecting_takes_ten_seconds_at_most() {
    assert_eq!(CONNECT_TIMEOUT_MS, 10000);
}

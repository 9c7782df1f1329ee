use hydra::client::Client;
use hydra::encoding::SupportedEncoding;
use hydra::error::Error;
use hydra::fetcher::{FetchRequest, Fetcher, FilesStep, Listing};
use hydra::package::{PathOrigin, StorePath};

fn text(s: &str) -> String {
    String::from(s)
}

fn fetcher() -> Fetcher {
    Fetcher::new(text("https://cache.nixos.org"), None).unwrap()
}

fn path() -> StorePath {
    let origin = PathOrigin { attr: text("hello"), output: text("out"), toplevel: true };
    StorePath::parse(origin, "/nix/store/abc-hello").unwrap()
}

#[test]
fn a_fetcher_uses_the_proxy() {
    assert_eq!(fetcher().client(), &Client::NoProxy);
    let made = Fetcher::new(text("c"), Some(text("http://p:1")));
    assert!(matches!(made.unwrap().client(), Client::Proxy(_)));
    assert_eq!(
        Fetcher::new(text("c"), Some(text("nonsense"))),
        Err(Error::ParseProxy(text("nonsense")))
    );
}

#[test]
fn references_are_asked_for() {
    let (request, _) = fetcher().fetch_references(path());
    assert_eq!(
        request,
        FetchRequest { url: text("https://cache.nixos.org/abc.narinfo"), encoding: None }
    );
}

#[test]
fn references_are_missing_if_nothing_is_found() {
    let (request, fetch) = fetcher().fetch_references(path());
    assert_eq!(fetch.received(&request.url, None), Ok((path(), None)));
}

#[test]
fn references_are_read() {
    let (request, fetch) = fetcher().fetch_references(path());
    let data = b"StorePath: /s/abc-full\nReferences: d-e\n".to_vec();
    let (found, references) = fetch.received(&request.url, Some(data)).unwrap();
    assert_eq!(found.name(), "full");
    assert_eq!(found.store_dir(), "/s");
    let references = references.unwrap();
    assert_eq!(references.len(), 1);
    assert_eq!(references[0].hash(), "d");
}

#[test]
fn references_that_cannot_be_read_are_reported() {
    let (request, fetch) = fetcher().fetch_references(path());
    assert_eq!(
        fetch.received(&request.url, Some(b"References: x".to_vec())),
        Err(Error::ParseStorePath(request.url.clone(), text("x")))
    );
    let (request, fetch) = fetcher().fetch_references(path());
    assert_eq!(
        fetch.received(&request.url, Some(b"StorePath:".to_vec())),
        Err(Error::ParseStorePath(text("https://cache.nixos.org/abc.narinfo"), text("")))
    );
}

#[test]
fn a_listing_is_parsed() {
    let (request, fetch) = fetcher().fetch_files(&path());
    assert_eq!(
        request,
        FetchRequest { url: text("https://cache.nixos.org/abc.ls"), encoding: None }
    );
    assert_eq!(
        fetch.received(request.url, Some(b"{}".to_vec())),
        FilesStep::Parse(Listing {
            url: text("https://cache.nixos.org/abc.ls"),
            name: text("abc.json"),
            contents: b"{}".to_vec(),
        })
    );
}

#[test]
fn a_listing_is_looked_for_twice() {
    for second in [None, Some(b"{}".to_vec())] {
        let (request, fetch) = fetcher().fetch_files(&path());
        match fetch.received(request.url, None) {
            FilesStep::Fetch(request, fetch) => {
                assert_eq!(request.url, "https://cache.nixos.org/abc.ls.xz");
                assert_eq!(request.encoding, Some(SupportedEncoding::Xz));
                let url = request.url.clone();
                match fetch.received(request.url, second.clone()) {
                    FilesStep::Absent => assert_eq!(second, None),
                    FilesStep::Parse(listing) => {
                        assert_eq!(listing.url, url);
                        assert_eq!(listing.name, "abc.json");
                        assert_eq!(Some(listing.contents), second);
                    }
                    step => panic!("{:?}", step),
                }
            }
            step => panic!("{:?}", step),
        }
    }
}

#[test]
fn a_listing_that_does_not_parse_is_an_error() {
    let listing = Listing { url: text("u"), name: text("n"), contents: vec![] };
    assert_eq!(Listing::failed_name(), "file_listing.json");
    assert_eq!(
        listing.parse_error(Some(text("f")), text("c")),
        Error::ParseResponse(text("u"), Some(text("f")), text("c"))
    );
}

#[test]
fn slow_parsing_is_reported() {
    assert_eq!(Listing::slow_warning(0, 0), None);
    assert_eq!(Listing::slow_warning(1, 999_999_999), None);
    assert_eq!(Listing::slow_warning(2, 0), None);
    assert_eq!(
        Listing::slow_warning(2, 1),
        Some(text("warning: took a long time to parse: 2s:000ms"))
    );
    assert_eq!(
        Listing::slow_warning(75, 42_999_999),
        Some(text("warning: took a long time to parse: 75s:042ms"))
    );
    assert_eq!(Listing::saved_message("/tmp/x"), "saved response to file: /tmp/x");
}

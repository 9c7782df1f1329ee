use hydra::error::Error;
use hydra::narinfo::{parse_narinfo, Narinfo};
use hydra::package::{PathOrigin, StorePath};

const URL: &str = "https://cache.nixos.org/abc.narinfo";

fn asked() -> StorePath {
    let origin =
        PathOrigin { attr: String::from("hello"), output: String::from("out"), toplevel: true };
    StorePath::parse(origin, "abc-unknown").unwrap()
}

fn read(data: &[u8]) -> Result<Narinfo, Error> {
    parse_narinfo(&String::from(URL), asked(), data)
}

fn names(info: &Narinfo) -> Vec<String> {
    info.references.iter().map(|path| format!("{}-{}", path.hash(), path.name())).collect()
}

#[test]
fn a_narinfo_is_read() {
    let data = b"StorePath: /nix/store/abc-hello-2.10\n\
URL: nar/xyz.nar.xz\n\
Compression: xz\n\
References: abc-hello-2.10 def-glibc-2.27\n\
Sig: cache.nixos.org-1:foo\n";
    let info = read(data).unwrap();
    assert_eq!(info.path.store_dir(), "/nix/store");
    assert_eq!(info.path.hash(), "abc");
    assert_eq!(info.path.name(), "hello-2.10");
    assert!(info.path.origin().toplevel);
    assert_eq!(names(&info), ["abc-hello-2.10", "def-glibc-2.27"]);
    for reference in &info.references {
        assert_eq!(reference.store_dir(), "");
        assert_eq!(reference.origin().attr, "hello");
        assert_eq!(reference.origin().output, "out");
        assert!(!reference.origin().toplevel);
    }
}

#[test]
fn an_empty_file_leaves_the_path_as_it_is() {
    let info = read(b"").unwrap();
    assert_eq!(info.path, asked());
    assert!(info.references.is_empty());
}

#[test]
fn references_may_be_empty_or_spaced_out() {
    assert!(read(b"References:").unwrap().references.is_empty());
    assert!(read(b"References: \n").unwrap().references.is_empty());
    assert_eq!(names(&read("References:a-b\t\u{3000}c-d \r\n".as_bytes()).unwrap()), ["a-b", "c-d"]);
}

#[test]
fn the_last_references_line_counts() {
    let info = read(b"References: a-b c-d\nReferences: e-f\nStorePath: x-y\n").unwrap();
    assert_eq!(names(&info), ["e-f"]);
    assert_eq!(info.path.hash(), "x");
}

#[test]
fn the_last_store_path_line_counts() {
    let info = read(b"StorePath: a-b\nStorePath: c-d\nReferences: e-f").unwrap();
    assert_eq!(info.path.hash(), "c");
    assert_eq!(info.path.name(), "d");
}

#[test]
fn other_lines_are_ignored() {
    let with = read(b"StorePath: a-b\nreferences: x\n\xff\xfe\n\n References: y\nReferences: c-d");
    let without = read(b"StorePath: a-b\nReferences: c-d");
    assert_eq!(with, without);
}

#[test]
fn the_space_after_the_store_path_key_is_optional() {
    for data in [
        &b"StorePath:a-b"[..],
        &b"StorePath: a-b\n"[..],
        &b"StorePath:\t a-b \r\n"[..],
    ] {
        let info = read(data).unwrap();
        assert_eq!(info.path.store_dir(), "");
        assert_eq!(info.path.hash(), "a");
        assert_eq!(info.path.name(), "b");
    }
    let info = read(b"StorePath:/nix/store/abc-hello\n").unwrap();
    assert_eq!(info.path.store_dir(), "/nix/store");
}

#[test]
fn a_bare_store_path_key_is_an_error() {
    let error = || Err(Error::ParseStorePath(String::from(URL), String::new()));
    assert_eq!(read(b"StorePath:"), error());
    assert_eq!(read(b"References: a-b\nStorePath:\n"), error());
}

#[test]
fn a_store_path_that_is_none_is_an_error() {
    assert_eq!(
        read(b"StorePath: \t\n"),
        Err(Error::ParseStorePath(String::from(URL), String::new()))
    );
    assert_eq!(
        read(b"StorePath: hello \n"),
        Err(Error::ParseStorePath(String::from(URL), String::from("hello")))
    );
}

#[test]
fn the_first_reference_that_is_none_is_an_error() {
    assert_eq!(
        read(b"References: a-b c d-e f\n"),
        Err(Error::ParseStorePath(String::from(URL), String::from("c")))
    );
}

#[test]
fn a_value_that_is_not_unicode_is_an_error() {
    match read(b"References: a-b \xff\n") {
        Err(error) => {
            assert_eq!(
                error.message(),
                "response to GET 'https://cache.nixos.org/abc.narinfo' contained invalid unicode \
                 byte 255: invalid utf-8 sequence of 1 bytes from index 5"
            );
            match error {
                Error::Unicode(url, bytes, failure) => {
                    assert_eq!(url, URL);
                    assert_eq!(bytes, b" a-b \xff");
                    assert_eq!(failure.valid_up_to, 5);
                }
                other => panic!("{:?}", other),
            }
        }
        Ok(info) => panic!("{:?}", info),
    }
    match read(b"StorePath:\xffabc-hello\n") {
        Err(Error::Unicode(_, bytes, failure)) => {
            assert_eq!(bytes, b"\xffabc-hello");
            assert_eq!(failure.valid_up_to, 0);
        }
        other => panic!("{:?}", other),
    }
    match read(b"StorePath: a-b\xe2\x82\nReferences: c-d\n") {
        Err(Error::Unicode(_, bytes, failure)) => {
            assert_eq!(bytes, b" a-b\xe2\x82");
            assert_eq!(failure.valid_up_to, 4);
            assert_eq!(failure.message, "incomplete utf-8 byte sequence from index 4");
        }
        other => panic!("{:?}", other),
    }
}

#[test]
fn a_written_narinfo_is_read_back() {
    let data = "StorePath: /s/häsh-nämé\nReferences: a-b ü-ö c-\n";
    let info = read(data.as_bytes()).unwrap();
    assert_eq!(info.path.store_dir(), "/s");
    assert_eq!(info.path.hash(), "häsh");
    assert_eq!(info.path.name(), "nämé");
    assert_eq!(names(&info), ["a-b", "ü-ö", "c-"]);
}

#[test]
fn only_the_origin_of_the_path_matters() {
    let url = String::from(URL);
    let other = || StorePath::parse(asked().origin().clone(), "/x/abc-other").unwrap();
    for data in [
        &b"StorePath: a-b\nReferences: c-d\n"[..],
        &b"References: c\nStorePath: a-b\n"[..],
        &b"StorePath: \n"[..],
    ] {
        assert_eq!(parse_narinfo(&url, asked(), data), parse_narinfo(&url, other(), data));
    }
    let info = parse_narinfo(&url, other(), b"References: c-d\n").unwrap();
    assert_eq!(info.path, other());
    assert_eq!(info.references, read(b"References: c-d\n").unwrap().references);
}

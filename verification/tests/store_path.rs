use hydra::package::{PathOrigin, StorePath};

fn origin() -> PathOrigin {
    PathOrigin { attr: String::from("hello"), output: String::from("out"), toplevel: true }
}

#[test]
fn a_path_is_taken_apart() {
    let path = StorePath::parse(
        origin(),
        "/nix/store/8mzqhw0gmfw2yagxaqnm9m6d5w2v0nyv-hello-2.10",
    )
    .unwrap();
    assert_eq!(path.store_dir(), "/nix/store");
    assert_eq!(path.hash(), "8mzqhw0gmfw2yagxaqnm9m6d5w2v0nyv");
    assert_eq!(path.name(), "hello-2.10");
    assert_eq!(path.origin(), &origin());
}

#[test]
fn a_path_needs_no_directory() {
    let path = StorePath::parse(origin(), "abc-name").unwrap();
    assert_eq!(path.store_dir(), "");
    assert_eq!(path.hash(), "abc");
    assert_eq!(path.name(), "name");
}

#[test]
fn a_name_may_hold_slashes_and_dashes() {
    let path = StorePath::parse(origin(), "/s/abc-a/b-c").unwrap();
    assert_eq!(path.store_dir(), "/s");
    assert_eq!(path.hash(), "abc");
    assert_eq!(path.name(), "a/b-c");
}

#[test]
fn a_path_without_a_dash_is_refused() {
    assert!(StorePath::parse(origin(), "/nix/store/abc").is_none());
    assert!(StorePath::parse(origin(), "").is_none());
}

#[test]
fn a_reference_is_not_toplevel() {
    let reference = origin().of_reference();
    assert_eq!(reference.attr, "hello");
    assert_eq!(reference.output, "out");
    assert!(!reference.toplevel);
    assert_eq!(origin().clone(), origin());
}

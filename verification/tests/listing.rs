use hydra::files::{Entries, FileTree};
use hydra::listing::{read_listing, Field, FieldValue, ListingError, ListingFields};

fn read(members: Vec<(&[u8], FieldValue)>) -> Result<FileTree, ListingError> {
    let mut fields = ListingFields::new();
    for (key, value) in members {
        if fields.begin_field(key)?.is_some() {
            fields = fields.store(value);
        }
    }
    fields.finish()
}

#[test]
fn a_whole_object_is_read_like_its_members() {
    let members = || {
        vec![
            (b"other".to_vec(), FieldValue::Size(0)),
            (b"size".to_vec(), FieldValue::Size(9)),
            (b"type".to_vec(), FieldValue::Type(b"regular".to_vec())),
        ]
    };
    assert_eq!(read_listing(members()), Ok(FileTree::regular(9, false)));
    let mut twice = members();
    twice.extend(members());
    assert_eq!(read_listing(twice), Err(ListingError::DuplicateField(Field::Size)));
    assert_eq!(read_listing(vec![]), Err(ListingError::MissingField(Field::Type)));
}

fn typ(name: &str) -> (&'static [u8], FieldValue) {
    (b"type", FieldValue::Type(name.as_bytes().to_vec()))
}

fn size(size: u64) -> (&'static [u8], FieldValue) {
    (b"size", FieldValue::Size(size))
}

fn target(target: &[u8]) -> (&'static [u8], FieldValue) {
    (b"target", FieldValue::Target(target.to_vec()))
}

#[test]
fn regular_files_are_read() {
    assert_eq!(read(vec![typ("regular"), size(42)]), Ok(FileTree::regular(42, false)));
    assert_eq!(
        read(vec![size(42), (b"executable", FieldValue::Executable(true)), typ("regular")]),
        Ok(FileTree::regular(42, true))
    );
    assert_eq!(
        read(vec![size(42), (b"executable", FieldValue::Executable(false)), typ("regular")]),
        Ok(FileTree::Regular { size: 42, executable: false })
    );
}

#[test]
fn symbolic_links_are_read() {
    assert_eq!(
        read(vec![typ("symlink"), target(b"../\xff")]),
        Ok(FileTree::symlink(b"../\xff".to_vec()))
    );
}

#[test]
fn directories_are_read() {
    let entries = || {
        Entries::new()
            .insert(b"b\xff".to_vec(), FileTree::regular(1, true))
            .insert(b"a".to_vec(), FileTree::directory(Entries::new()))
    };
    let tree = read(vec![typ("directory"), (b"entries", FieldValue::Entries(entries()))]).unwrap();
    assert_eq!(tree, FileTree::directory(entries()));
    match tree {
        FileTree::Directory { entries } => {
            assert_eq!(entries.len(), 2);
            assert_eq!(entries.get(b"b\xff"), Some(&FileTree::regular(1, true)));
            assert_eq!(entries.get(b"a"), Some(&FileTree::directory(Entries::new())));
            assert_eq!(entries.get(b"b"), None);
        }
        other => panic!("{:?}", other),
    }
}

#[test]
fn a_later_entry_replaces_an_earlier_one() {
    let entries = Entries::new()
        .insert(b"x".to_vec(), FileTree::regular(1, false))
        .insert(b"y".to_vec(), FileTree::regular(2, false))
        .insert(b"x".to_vec(), FileTree::regular(3, false));
    assert_eq!(entries.len(), 2);
    assert_eq!(entries.get(b"x"), Some(&FileTree::regular(3, false)));
    assert_eq!(entries.get(b"y"), Some(&FileTree::regular(2, false)));
}

#[test]
fn the_order_of_entries_does_not_matter() {
    let names: [&[u8]; 5] = [b"", b"a", b"aa", b"b", b"\xff"];
    let mut forward = Entries::new();
    let mut backward = Entries::new();
    for i in 0..names.len() {
        let j = names.len() - 1 - i;
        forward = forward.insert(names[i].to_vec(), FileTree::regular(i as u64, false));
        backward = backward.insert(names[j].to_vec(), FileTree::regular(j as u64, false));
    }
    assert_eq!(forward, backward);
}

#[test]
fn the_order_of_members_does_not_matter() {
    assert_eq!(
        read(vec![typ("regular"), size(7), target(b"t")]),
        read(vec![target(b"t"), size(7), typ("regular")])
    );
}

#[test]
fn other_members_are_ignored() {
    assert_eq!(
        read(vec![
            (b"narOffset", FieldValue::Size(1)),
            typ("regular"),
            (b"narOffset", FieldValue::Size(2)),
            size(7),
            (b"Type", FieldValue::Size(3)),
        ]),
        Ok(FileTree::regular(7, false))
    );
}

#[test]
fn members_that_the_type_does_not_need_are_not_used() {
    assert_eq!(
        read(vec![typ("symlink"), size(7), target(b"t")]),
        Ok(FileTree::symlink(b"t".to_vec()))
    );
}

#[test]
fn duplicate_fields_are_refused() {
    assert_eq!(
        read(vec![typ("regular"), size(1), size(1)]),
        Err(ListingError::DuplicateField(Field::Size))
    );
    assert_eq!(
        read(vec![typ("regular"), typ("symlink")]),
        Err(ListingError::DuplicateField(Field::Type))
    );
}

#[test]
fn missing_fields_are_refused() {
    assert_eq!(read(vec![size(1)]), Err(ListingError::MissingField(Field::Type)));
    assert_eq!(
        read(vec![typ("regular"), target(b"t")]),
        Err(ListingError::MissingField(Field::Size))
    );
    assert_eq!(read(vec![typ("directory")]), Err(ListingError::MissingField(Field::Entries)));
    assert_eq!(read(vec![typ("symlink")]), Err(ListingError::MissingField(Field::Target)));
}

#[test]
fn unknown_types_are_refused() {
    assert_eq!(
        read(vec![typ("Regular"), size(1)]),
        Err(ListingError::UnknownVariant(String::from("Regular")))
    );
    assert_eq!(
        read(vec![(b"type", FieldValue::Type(b"f\xffo".to_vec()))]),
        Err(ListingError::UnknownVariant(String::from("f\u{fffd}o")))
    );
}

#[test]
fn keys_mean_fields() {
    for field in [Field::Type, Field::Size, Field::Executable, Field::Entries, Field::Target] {
        assert_eq!(Field::from_key(field.name().as_bytes()), Some(field));
    }
    assert_eq!(Field::Type.name(), "type");
    assert_eq!(Field::Size.name(), "size");
    assert_eq!(Field::Executable.name(), "executable");
    assert_eq!(Field::Entries.name(), "entries");
    assert_eq!(Field::Target.name(), "target");
    assert_eq!(Field::from_key(b"sizes"), None);
    assert_eq!(Field::from_key(b""), None);
}

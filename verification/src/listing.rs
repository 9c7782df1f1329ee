//! The file listings that the binary cache serves as `.ls` files.
//!
//! A listing is a JSON object. Its keys and values arrive one after the other: for each key
//! [`ListingFields::begin_field`] tells what to read its value as, and [`ListingFields::store`] takes
//! that value. [`ListingFields::finish`] then makes a file tree out of the object.
use crate::files::{Entries, FileNodeView, FileTree};
use crate::text::{bytes_eq, from_utf8_lossy, lossy_text};
use vstd::prelude::*;
use vstd::string::*;
use vstd::utf8::*;

verus! {

/// The keys of a listing that mean something.
#[derive(Debug, Copy, Clone, PartialEq, Eq, Structural)]
pub enum Field {
    /// What the listing describes: a regular file, a directory or a symbolic link.
    Type,
    /// The size of a regular file.
    Size,
    /// Whether a regular file is executable.
    Executable,
    /// The listings of the files in a directory.
    Entries,
    /// Where a symbolic link points to.
    Target,
}

/// The meaning of `key`; `None` where it has none.
pub open spec fn field_of(key: Seq<u8>) -> Option<Field> {
    if key == "type".spec_bytes() {
        Some(Field::Type)
    } else if key == "size".spec_bytes() {
        Some(Field::Size)
    } else if key == "executable".spec_bytes() {
        Some(Field::Executable)
    } else if key == "entries".spec_bytes() {
        Some(Field::Entries)
    } else if key == "target".spec_bytes() {
        Some(Field::Target)
    } else {
        None
    }
}

impl Field {
    /// The meaning of `key`; `None` where it has none.
    pub fn from_key(key: &[u8]) -> (field: Option<Field>)
        ensures
            field == field_of(key@),
    {
        if bytes_eq(key, "type".as_bytes()) {
            Some(Field::Type)
        } else if bytes_eq(key, "size".as_bytes()) {
            Some(Field::Size)
        } else if bytes_eq(key, "executable".as_bytes()) {
            Some(Field::Executable)
        } else if bytes_eq(key, "entries".as_bytes()) {
            Some(Field::Entries)
        } else if bytes_eq(key, "target".as_bytes()) {
            Some(Field::Target)
        } else {
            None
        }
    }

    /// The key that the field is written with.
    pub open spec fn key(self) -> Seq<char> {
        match self {
            Field::Type => "type"@,
            Field::Size => "size"@,
            Field::Executable => "executable"@,
            Field::Entries => "entries"@,
            Field::Target => "target"@,
        }
    }

    /// The key that the field is written with.
    pub fn name(self) -> (name: &'static str)
        ensures
            name@ == self.key(),
    {
        match self {
            Field::Type => "type",
            Field::Size => "size",
            Field::Executable => "executable",
            Field::Entries => "entries",
            Field::Target => "target",
        }
    }
}

/// Why a listing is not a file tree.
#[derive(Debug, PartialEq, Eq)]
pub enum ListingError {
    /// A key occurs twice.
    DuplicateField(Field),
    /// A key that is needed does not occur.
    MissingField(Field),
    /// The type is not one of those that there are; the type.
    UnknownVariant(String),
}

/// What a [`ListingError`] stands for.
pub enum ListingErrorView {
    DuplicateField(Field),
    MissingField(Field),
    UnknownVariant(Seq<char>),
}

impl View for ListingError {
    type V = ListingErrorView;

    open spec fn view(&self) -> ListingErrorView {
        match *self {
            ListingError::DuplicateField(field) => ListingErrorView::DuplicateField(field),
            ListingError::MissingField(field) => ListingErrorView::MissingField(field),
            ListingError::UnknownVariant(typ) => ListingErrorView::UnknownVariant(typ@),
        }
    }
}

/// The value of a field.
pub enum FieldValue {
    Type(Vec<u8>),
    Size(u64),
    Executable(bool),
    Entries(Entries),
    Target(Vec<u8>),
}

/// What a [`FieldValue`] stands for.
pub enum FieldValueView {
    Type(Seq<u8>),
    Size(u64),
    Executable(bool),
    Entries(Map<Seq<u8>, FileTree>),
    Target(Seq<u8>),
}

impl View for FieldValue {
    type V = FieldValueView;

    open spec fn view(&self) -> FieldValueView {
        match *self {
            FieldValue::Type(typ) => FieldValueView::Type(typ@),
            FieldValue::Size(size) => FieldValueView::Size(size),
            FieldValue::Executable(executable) => FieldValueView::Executable(executable),
            FieldValue::Entries(entries) => FieldValueView::Entries(entries@),
            FieldValue::Target(target) => FieldValueView::Target(target@),
        }
    }
}

impl FieldValueView {
    /// The field that the value is for.
    pub open spec fn field(self) -> Field {
        match self {
            FieldValueView::Type(_) => Field::Type,
            FieldValueView::Size(_) => Field::Size,
            FieldValueView::Executable(_) => Field::Executable,
            FieldValueView::Entries(_) => Field::Entries,
            FieldValueView::Target(_) => Field::Target,
        }
    }
}

/// The fields of a listing that have been read so far.
pub struct ListingFields {
    typ: Option<Vec<u8>>,
    size: Option<u64>,
    executable: Option<bool>,
    entries: Option<Entries>,
    target: Option<Vec<u8>>,
}

/// What [`ListingFields`] stand for.
pub struct ListingView {
    pub typ: Option<Seq<u8>>,
    pub size: Option<u64>,
    pub executable: Option<bool>,
    pub entries: Option<Map<Seq<u8>, FileTree>>,
    pub target: Option<Seq<u8>>,
}

impl View for ListingFields {
    type V = ListingView;

    closed spec fn view(&self) -> ListingView {
        ListingView {
            typ: match self.typ {
                Some(typ) => Some(typ@),
                None => None,
            },
            size: self.size,
            executable: self.executable,
            entries: match self.entries {
                Some(entries) => Some(entries@),
                None => None,
            },
            target: match self.target {
                Some(target) => Some(target@),
                None => None,
            },
        }
    }
}

/// A type in words: its text, or what comes closest to it where it is not UTF-8.
pub open spec fn variant_text(typ: Seq<u8>) -> Seq<char> {
    if valid_utf8(typ) {
        decode_utf8(typ)
    } else {
        lossy_text(typ)
    }
}

impl ListingView {
    /// A listing of which nothing has been read.
    pub open spec fn empty() -> ListingView {
        ListingView { typ: None, size: None, executable: None, entries: None, target: None }
    }

    /// Whether `field` has been read.
    pub open spec fn has(self, field: Field) -> bool {
        match field {
            Field::Type => self.typ is Some,
            Field::Size => self.size is Some,
            Field::Executable => self.executable is Some,
            Field::Entries => self.entries is Some,
            Field::Target => self.target is Some,
        }
    }

    /// The listing with one more value.
    pub open spec fn with(self, value: FieldValueView) -> ListingView {
        match value {
            FieldValueView::Type(typ) => ListingView { typ: Some(typ), ..self },
            FieldValueView::Size(size) => ListingView { size: Some(size), ..self },
            FieldValueView::Executable(executable) => ListingView {
                executable: Some(executable),
                ..self
            },
            FieldValueView::Entries(entries) => ListingView { entries: Some(entries), ..self },
            FieldValueView::Target(target) => ListingView { target: Some(target), ..self },
        }
    }

    /// The root of the tree that the fields describe. What they have to be depends on the type.
    pub open spec fn tree(self) -> Result<FileNodeView, ListingErrorView> {
        match self.typ {
            None => Err(ListingErrorView::MissingField(Field::Type)),
            Some(typ) => if typ == "regular".spec_bytes() {
                match self.size {
                    None => Err(ListingErrorView::MissingField(Field::Size)),
                    Some(size) => Ok(
                        FileNodeView::Regular {
                            size,
                            executable: self.executable == Some(true),
                        },
                    ),
                }
            } else if typ == "directory".spec_bytes() {
                match self.entries {
                    None => Err(ListingErrorView::MissingField(Field::Entries)),
                    Some(entries) => Ok(FileNodeView::Directory { entries }),
                }
            } else if typ == "symlink".spec_bytes() {
                match self.target {
                    None => Err(ListingErrorView::MissingField(Field::Target)),
                    Some(target) => Ok(FileNodeView::Symlink { target }),
                }
            } else {
                Err(ListingErrorView::UnknownVariant(variant_text(typ)))
            },
        }
    }
}

impl ListingFields {
    /// A listing of which nothing has been read.
    pub fn new() -> (fields: ListingFields)
        ensures
            fields@ == ListingView::empty(),
    {
        ListingFields { typ: None, size: None, executable: None, entries: None, target: None }
    }

    /// What the value of the next key is for. A key that means nothing is ignored, with its value,
    /// to be more robust against changes in the format; a key that occurred before is an error.
    pub fn begin_field(&self, key: &[u8]) -> (result: Result<Option<Field>, ListingError>)
        ensures
            match result {
                Ok(field) => field == field_of(key@) && (field matches Some(f) ==> !self@.has(f)),
                Err(error) => field_of(key@) matches Some(field) && self@.has(field) && error@
                    == ListingErrorView::DuplicateField(field),
            },
    {
        let field = match Field::from_key(key) {
            Some(field) => field,
            None => return Ok(None),
        };
        let seen = match field {
            Field::Type => self.typ.is_some(),
            Field::Size => self.size.is_some(),
            Field::Executable => self.executable.is_some(),
            Field::Entries => self.entries.is_some(),
            Field::Target => self.target.is_some(),
        };
        if seen {
            Err(ListingError::DuplicateField(field))
        } else {
            Ok(Some(field))
        }
    }

    /// Takes the value of a field.
    pub fn store(self, value: FieldValue) -> (fields: ListingFields)
        ensures
            fields@ == self@.with(value@),
    {
        match value {
            FieldValue::Type(typ) => ListingFields { typ: Some(typ), ..self },
            FieldValue::Size(size) => ListingFields { size: Some(size), ..self },
            FieldValue::Executable(executable) => ListingFields {
                executable: Some(executable),
                ..self
            },
            FieldValue::Entries(entries) => ListingFields { entries: Some(entries), ..self },
            FieldValue::Target(target) => ListingFields { target: Some(target), ..self },
        }
    }

    /// Makes a file tree of the fields.
    pub fn finish(self) -> (result: Result<FileTree, ListingError>)
        ensures
            match result {
                Ok(tree) => self@.tree() == Ok::<_, ListingErrorView>(tree@),
                Err(error) => self@.tree() == Err::<FileNodeView, _>(error@),
            },
            self@.typ == Some("regular".spec_bytes()) ==> (self@.size matches Some(size) ==> (
            result matches Ok(tree) && tree@ == (FileNodeView::Regular {
                size,
                executable: self@.executable == Some(true),
            }))),
            self@.typ == Some("directory".spec_bytes()) ==> (self@.entries matches Some(entries)
                ==> (result matches Ok(tree) && tree@ == (FileNodeView::Directory { entries }))),
            self@.typ == Some("symlink".spec_bytes()) ==> (self@.target matches Some(target) ==> (
            result matches Ok(tree) && tree@ == (FileNodeView::Symlink { target }))),
    {
        proof {
            lemma_types_differ();
        }
        let typ = match self.typ {
            Some(typ) => typ,
            None => return Err(ListingError::MissingField(Field::Type)),
        };
        if bytes_eq(typ.as_slice(), "regular".as_bytes()) {
            match self.size {
                Some(size) => Ok(
                    FileTree::regular(
                        size,
                        match self.executable {
                            Some(executable) => executable,
                            None => false,
                        },
                    ),
                ),
                None => Err(ListingError::MissingField(Field::Size)),
            }
        } else if bytes_eq(typ.as_slice(), "directory".as_bytes()) {
            match self.entries {
                Some(entries) => Ok(FileTree::directory(entries)),
                None => Err(ListingError::MissingField(Field::Entries)),
            }
        } else if bytes_eq(typ.as_slice(), "symlink".as_bytes()) {
            match self.target {
                Some(target) => Ok(FileTree::symlink(target)),
                None => Err(ListingError::MissingField(Field::Target)),
            }
        } else {
            Err(ListingError::UnknownVariant(from_utf8_lossy(typ.as_slice())))
        }
    }
}

/// A key of a listing with its value. The value of a key that means nothing does not matter.
pub struct Member {
    pub key: Seq<u8>,
    pub value: FieldValueView,
}

impl Member {
    /// Whether the value is one that the key can have.
    pub open spec fn wf(self) -> bool {
        field_of(self.key) matches Some(field) ==> self.value.field() == field
    }
}

/// What has been read after one more member.
pub open spec fn read_member(fields: ListingView, member: Member) -> Result<
    ListingView,
    ListingErrorView,
> {
    match field_of(member.key) {
        None => Ok(fields),
        Some(field) => if fields.has(field) {
            Err(ListingErrorView::DuplicateField(field))
        } else {
            Ok(fields.with(member.value))
        },
    }
}

/// What has been read after `members`.
pub open spec fn read_members(fields: ListingView, members: Seq<Member>) -> Result<
    ListingView,
    ListingErrorView,
>
    decreases members.len(),
{
    if members.len() == 0 {
        Ok(fields)
    } else {
        match read_members(fields, members.drop_last()) {
            Ok(fields) => read_member(fields, members.last()),
            Err(error) => Err(error),
        }
    }
}

/// The root of the tree that an object with `members` describes.
pub open spec fn listing_tree(members: Seq<Member>) -> Result<FileNodeView, ListingErrorView> {
    match read_members(ListingView::empty(), members) {
        Ok(fields) => fields.tree(),
        Err(error) => Err(error),
    }
}

/// What keys with their values stand for.
pub open spec fn members_view(members: Seq<(Vec<u8>, FieldValue)>) -> Seq<Member> {
    members.map_values(
        |member: (Vec<u8>, FieldValue)| Member { key: member.0@, value: member.1@ },
    )
}

/// Makes a file tree of a whole object, the members of which are given in order.
pub fn read_listing(members: Vec<(Vec<u8>, FieldValue)>) -> (result: Result<
    FileTree,
    ListingError,
>)
    ensures
        match result {
            Ok(tree) => listing_tree(members_view(members@)) == Ok::<_, ListingErrorView>(tree@),
            Err(error) => listing_tree(members_view(members@)) == Err::<FileNodeView, _>(error@),
        },
{
    let ghost all = members_view(members@);
    let mut fields = ListingFields::new();
    assert(all.take(0) =~= Seq::empty());
    for member in it: members
        invariant
            it.seq() == members@,
            all == members_view(members@),
            read_members(ListingView::empty(), all.take(it.index() as int)) == Ok::<
                _,
                ListingErrorView,
            >(fields@),
    {
        let ghost i = it.index() as int;
        let (key, value) = member;
        proof {
            assert(all.take(i + 1).drop_last() =~= all.take(i));
            assert(all.take(i + 1).last() == (Member { key: key@, value: value@ }));
        }
        match fields.begin_field(key.as_slice()) {
            Ok(Some(_)) => {
                fields = fields.store(value);
            },
            Ok(None) => {},
            Err(error) => {
                proof {
                    lemma_members_stopped(ListingView::empty(), all, i + 1);
                }
                return Err(error);
            },
        }
    }
    assert(all.take(members@.len() as int) =~= all);
    fields.finish()
}

proof fn lemma_members_stopped(fields: ListingView, members: Seq<Member>, n: int)
    requires
        0 <= n <= members.len(),
        read_members(fields, members.take(n)) is Err,
    ensures
        read_members(fields, members) == read_members(fields, members.take(n)),
{
    law_members_are_read_stepwise(fields, members.take(n), members.skip(n));
    assert(members.take(n) + members.skip(n) =~= members);
}

/// Reading some members and then more members is reading all of them.
pub proof fn law_members_are_read_stepwise(
    fields: ListingView,
    first: Seq<Member>,
    second: Seq<Member>,
)
    ensures
        read_members(fields, first + second) == match read_members(fields, first) {
            Ok(between) => read_members(between, second),
            Err(error) => Err(error),
        },
    decreases second.len(),
{
    if second.len() == 0 {
        assert(first + second == first);
    } else {
        assert((first + second).drop_last() == first + second.drop_last());
        assert((first + second).last() == second.last());
        law_members_are_read_stepwise(fields, first, second.drop_last());
    }
}

proof fn lemma_one_member(fields: ListingView, member: Member)
    ensures
        read_members(fields, seq![member]) == read_member(fields, member),
{
    assert(seq![member].drop_last() == Seq::<Member>::empty());
    assert(read_members(fields, seq![member].drop_last()) == Ok::<_, ListingErrorView>(fields));
}

/// A member whose key means nothing makes no difference, wherever it stands.
pub proof fn law_other_members_are_ignored(before: Seq<Member>, member: Member, after: Seq<Member>)
    requires
        field_of(member.key) is None,
    ensures
        listing_tree(before + seq![member] + after) == listing_tree(before + after),
{
    let start = ListingView::empty();
    law_members_are_read_stepwise(start, before, seq![member]);
    law_members_are_read_stepwise(start, before + seq![member], after);
    law_members_are_read_stepwise(start, before, after);
    if let Ok(between) = read_members(start, before) {
        lemma_one_member(between, member);
    }
}

proof fn lemma_fields_stay(fields: ListingView, members: Seq<Member>, field: Field)
    requires
        fields.has(field),
    ensures
        read_members(fields, members) matches Ok(read) ==> read.has(field),
    decreases members.len(),
{
    if members.len() != 0 {
        lemma_fields_stay(fields, members.drop_last(), field);
    }
}

/// An object in which a meaningful key occurs twice is never a file tree. Where what stands before
/// the second occurrence can be read, the error names that key.
pub proof fn law_duplicate_fields_are_refused(
    before: Seq<Member>,
    first: Member,
    between: Seq<Member>,
    second: Member,
    after: Seq<Member>,
)
    requires
        first.wf(),
        field_of(first.key) is Some,
        second.key == first.key,
    ensures
        listing_tree(before + seq![first] + between + seq![second] + after) is Err,
        read_members(ListingView::empty(), before + seq![first] + between) is Ok ==> listing_tree(
            before + seq![first] + between + seq![second] + after,
        ) == Err::<FileNodeView, _>(ListingErrorView::DuplicateField(field_of(first.key)->0)),
{
    let start = ListingView::empty();
    let field = field_of(first.key)->0;
    let a = before + seq![first];
    let b = a + between;
    law_members_are_read_stepwise(start, before, seq![first]);
    law_members_are_read_stepwise(start, a, between);
    law_members_are_read_stepwise(start, b, seq![second]);
    law_members_are_read_stepwise(start, b + seq![second], after);
    if let Ok(f0) = read_members(start, before) {
        lemma_one_member(f0, first);
        if let Ok(f1) = read_members(f0, seq![first]) {
            assert(f1.has(field));
            lemma_fields_stay(f1, between, field);
            if let Ok(f2) = read_members(f1, between) {
                lemma_one_member(f2, second);
            }
        }
    }
}

/// The order of two members with different keys does not matter: they make the same tree either way.
pub proof fn law_order_of_members_is_irrelevant(
    before: Seq<Member>,
    first: Member,
    second: Member,
    after: Seq<Member>,
)
    requires
        first.wf(),
        second.wf(),
        first.key != second.key,
    ensures
        listing_tree(before + seq![first] + seq![second] + after) matches Ok(tree)
            ==> listing_tree(before + seq![second] + seq![first] + after) == Ok::<
            _,
            ListingErrorView,
        >(tree),
{
    let start = ListingView::empty();
    law_members_are_read_stepwise(start, before, seq![first]);
    law_members_are_read_stepwise(start, before, seq![second]);
    law_members_are_read_stepwise(start, before + seq![first], seq![second]);
    law_members_are_read_stepwise(start, before + seq![second], seq![first]);
    law_members_are_read_stepwise(start, before + seq![first] + seq![second], after);
    law_members_are_read_stepwise(start, before + seq![second] + seq![first], after);
    if let Ok(f0) = read_members(start, before) {
        lemma_one_member(f0, first);
        lemma_one_member(f0, second);
        if let Ok(f1) = read_members(f0, seq![first]) {
            lemma_one_member(f1, second);
        }
        if let Ok(f2) = read_members(f0, seq![second]) {
            lemma_one_member(f2, first);
        }
    }
}

/// Each field has a key of its own.
pub proof fn law_keys_are_told_apart(field: Field)
    ensures
        field_of(encode_utf8(field.key())) == Some(field),
{
    reveal_strlit("type");
    reveal_strlit("size");
    reveal_strlit("executable");
    reveal_strlit("entries");
    reveal_strlit("target");
    assert("type"@ != "target"@);
    encode_utf8_decode_utf8("type"@);
    encode_utf8_decode_utf8("size"@);
    encode_utf8_decode_utf8("executable"@);
    encode_utf8_decode_utf8("entries"@);
    encode_utf8_decode_utf8("target"@);
    assert("type"@[0] == 't');
    assert("size"@[0] == 's');
    assert("executable"@[1] == 'x');
    assert("entries"@[1] == 'n');
    assert("target"@[1] == 'a');
    assert("type"@[1] == 'y');
}

/// A tree is a regular file, a directory or a symbolic link as its type says, and nothing but the
/// fields that belong to that type counts.
pub proof fn law_type_decides(fields: ListingView)
    ensures
        fields.typ is None ==> fields.tree() == Err::<FileNodeView, _>(
            ListingErrorView::MissingField(Field::Type),
        ),
        fields.typ == Some("regular".spec_bytes()) ==> fields.tree() == (ListingView {
            entries: None,
            target: None,
            ..fields
        }).tree(),
        fields.typ == Some("directory".spec_bytes()) ==> fields.tree() == (ListingView {
            size: None,
            executable: None,
            target: None,
            ..fields
        }).tree(),
        fields.typ == Some("symlink".spec_bytes()) ==> fields.tree() == (ListingView {
            size: None,
            executable: None,
            entries: None,
            ..fields
        }).tree(),
        fields.tree() matches Ok(FileNodeView::Regular { .. }) ==> fields.typ == Some(
            "regular".spec_bytes(),
        ),
        fields.tree() matches Ok(FileNodeView::Directory { .. }) ==> fields.typ == Some(
            "directory".spec_bytes(),
        ),
        fields.tree() matches Ok(FileNodeView::Symlink { .. }) ==> fields.typ == Some(
            "symlink".spec_bytes(),
        ),
{
    reveal_strlit("regular");
    reveal_strlit("directory");
    reveal_strlit("symlink");
    encode_utf8_decode_utf8("regular"@);
    encode_utf8_decode_utf8("directory"@);
    encode_utf8_decode_utf8("symlink"@);
    assert("regular"@[0] == 'r');
    assert("directory"@[0] == 'd');
    assert("symlink"@[0] == 's');
}

/// The value that was read for a field, if it was read.
pub open spec fn value_of(fields: ListingView, field: Field) -> Option<FieldValueView> {
    match field {
        Field::Type => match fields.typ {
            Some(typ) => Some(FieldValueView::Type(typ)),
            None => None,
        },
        Field::Size => match fields.size {
            Some(size) => Some(FieldValueView::Size(size)),
            None => None,
        },
        Field::Executable => match fields.executable {
            Some(executable) => Some(FieldValueView::Executable(executable)),
            None => None,
        },
        Field::Entries => match fields.entries {
            Some(entries) => Some(FieldValueView::Entries(entries)),
            None => None,
        },
        Field::Target => match fields.target {
            Some(target) => Some(FieldValueView::Target(target)),
            None => None,
        },
    }
}

/// A listing of the type of a regular file that has a size is a regular file of exactly that size,
/// and executable exactly if it says so. Without a size it is an error.
pub proof fn law_regular_files_keep_their_size(fields: ListingView, size: u64)
    requires
        fields.typ == Some("regular".spec_bytes()),
    ensures
        fields.size == Some(size) ==> (fields.tree() matches Ok(FileNodeView::Regular {
            size: found,
            executable,
        }) && found == size && (executable <==> fields.executable == Some(true))),
        fields.size is None ==> fields.tree() == Err::<FileNodeView, _>(
            ListingErrorView::MissingField(Field::Size),
        ),
{
}

/// A listing of the type of a directory that has entries is a directory of exactly these. Without
/// entries it is an error.
pub proof fn law_directories_keep_their_entries(
    fields: ListingView,
    entries: Map<Seq<u8>, FileTree>,
)
    requires
        fields.typ == Some("directory".spec_bytes()),
    ensures
        fields.entries == Some(entries) ==> (fields.tree() matches Ok(FileNodeView::Directory {
            entries: found,
        }) && found == entries),
        fields.entries is None ==> fields.tree() == Err::<FileNodeView, _>(
            ListingErrorView::MissingField(Field::Entries),
        ),
{
    law_type_decides(fields);
    lemma_types_differ();
}

/// A listing of the type of a symbolic link that has a target is a link to exactly that. Without a
/// target it is an error.
pub proof fn law_links_keep_their_target(fields: ListingView, target: Seq<u8>)
    requires
        fields.typ == Some("symlink".spec_bytes()),
    ensures
        fields.target == Some(target) ==> (fields.tree() matches Ok(FileNodeView::Symlink {
            target: found,
        }) && found == target),
        fields.target is None ==> fields.tree() == Err::<FileNodeView, _>(
            ListingErrorView::MissingField(Field::Target),
        ),
{
    lemma_types_differ();
}

/// A listing of any other type is an error that tells the type.
pub proof fn law_other_types_are_refused(fields: ListingView, typ: Seq<u8>)
    requires
        fields.typ == Some(typ),
        typ != "regular".spec_bytes(),
        typ != "directory".spec_bytes(),
        typ != "symlink".spec_bytes(),
    ensures
        fields.tree() matches Err(ListingErrorView::UnknownVariant(told)) && told == (
        if valid_utf8(typ) {
            decode_utf8(typ)
        } else {
            lossy_text(typ)
        }),
{
}

proof fn lemma_types_differ()
    ensures
        "regular".spec_bytes() != "directory".spec_bytes(),
        "regular".spec_bytes() != "symlink".spec_bytes(),
        "directory".spec_bytes() != "symlink".spec_bytes(),
{
    reveal_strlit("regular");
    reveal_strlit("directory");
    reveal_strlit("symlink");
    encode_utf8_decode_utf8("regular"@);
    encode_utf8_decode_utf8("directory"@);
    encode_utf8_decode_utf8("symlink"@);
    assert("regular"@[0] == 'r');
    assert("directory"@[0] == 'd');
    assert("symlink"@[0] == 's');
}

/// A value that is taken is there, and nothing else changes. Nothing is there at first.
pub proof fn law_values_are_kept(fields: ListingView, value: FieldValueView, other: Field)
    ensures
        value_of(fields.with(value), value.field()) == Some(value),
        other != value.field() ==> value_of(fields.with(value), other) == value_of(fields, other),
        fields.has(other) <==> value_of(fields, other) is Some,
        value_of(ListingView::empty(), other) is None,
{
}

/// Exactly five keys mean something, each one field.
pub proof fn law_five_keys_mean_something(key: Seq<u8>)
    ensures
        field_of(key) == Some(Field::Type) <==> key == "type".spec_bytes(),
        field_of(key) == Some(Field::Size) <==> key == "size".spec_bytes(),
        field_of(key) == Some(Field::Executable) <==> key == "executable".spec_bytes(),
        field_of(key) == Some(Field::Entries) <==> key == "entries".spec_bytes(),
        field_of(key) == Some(Field::Target) <==> key == "target".spec_bytes(),
        Field::Type.key() == "type"@,
        Field::Size.key() == "size"@,
        Field::Executable.key() == "executable"@,
        Field::Entries.key() == "entries"@,
        Field::Target.key() == "target"@,
{
    law_keys_are_told_apart(Field::Type);
    law_keys_are_told_apart(Field::Size);
    law_keys_are_told_apart(Field::Executable);
    law_keys_are_told_apart(Field::Entries);
    law_keys_are_told_apart(Field::Target);
}

/// Whether some key that means something occurs twice.
pub open spec fn has_duplicates(members: Seq<Member>) -> bool {
    exists|i: int, j: int|
        0 <= i < j < members.len() && field_of((#[trigger] members[i]).key) is Some && (
        #[trigger] members[j]).key == members[i].key
}

/// An object is read exactly if no key that means something occurs twice. What is read for a field
/// is then the value of the member with its key, and nothing where there is none.
pub proof fn law_members_are_the_fields(members: Seq<Member>, field: Field)
    requires
        forall|i: int| 0 <= i < members.len() ==> (#[trigger] members[i]).wf(),
    ensures
        read_members(ListingView::empty(), members) is Ok <==> !has_duplicates(members),
        read_members(ListingView::empty(), members) matches Ok(fields) ==> {
            &&& forall|i: int|
                0 <= i < members.len() && field_of((#[trigger] members[i]).key) == Some(field)
                    ==> value_of(fields, field) == Some(members[i].value)
            &&& (forall|i: int|
                0 <= i < members.len() ==> field_of((#[trigger] members[i]).key) != Some(field))
                ==> value_of(fields, field) is None
        },
        !has_duplicates(members) ==> listing_tree(members) == read_members(
            ListingView::empty(),
            members,
        )->Ok_0.tree(),
        has_duplicates(members) ==> listing_tree(members) matches Err(
            ListingErrorView::DuplicateField(_),
        ),
    decreases members.len(),
{
    if members.len() != 0 {
        let rest = members.drop_last();
        let last = members.last();
        assert(members.last() == members[members.len() - 1]);
        assert forall|i: int| 0 <= i < rest.len() implies (#[trigger] rest[i]).wf() by {
            assert(rest[i] == members[i]);
        }
        law_members_are_the_fields(rest, field);
        assert(last.wf());
        if has_duplicates(rest) {
            let (i, j) = choose|i: int, j: int|
                0 <= i < j < rest.len() && field_of((#[trigger] rest[i]).key) is Some && (
                #[trigger] rest[j]).key == rest[i].key;
            assert(members[i] == rest[i] && members[j] == rest[j]);
        } else {
            let fields = read_members(ListingView::empty(), rest)->Ok_0;
            if let Some(f) = field_of(last.key) {
                law_members_are_the_fields(rest, f);
                law_values_are_kept(fields, last.value, f);
                law_values_are_kept(fields, last.value, field);
                law_five_keys_mean_something(last.key);
                if fields.has(f) {
                    if forall|i: int|
                        0 <= i < rest.len() ==> field_of((#[trigger] rest[i]).key) != Some(f) {
                        assert(false);
                    }
                    let i = choose|i: int|
                        0 <= i < rest.len() && field_of((#[trigger] rest[i]).key) == Some(f);
                    law_five_keys_mean_something(rest[i].key);
                    assert(members[i].key == members[members.len() - 1].key);
                } else {
                    assert(!has_duplicates(members)) by {
                        if has_duplicates(members) {
                            let (i, j) = choose|i: int, j: int|
                                0 <= i < j < members.len() && field_of(
                                    (#[trigger] members[i]).key,
                                ) is Some && (#[trigger] members[j]).key == members[i].key;
                            assert(members[i] == rest[i]);
                            if j < rest.len() {
                                assert(members[j] == rest[j]);
                            } else {
                                assert(field_of(rest[i].key) == Some(f));
                                assert(value_of(fields, f) == Some(rest[i].value));
                            }
                        }
                    }
                }
            } else {
                assert(!has_duplicates(members)) by {
                    if has_duplicates(members) {
                        let (i, j) = choose|i: int, j: int|
                            0 <= i < j < members.len() && field_of(
                                (#[trigger] members[i]).key,
                            ) is Some && (#[trigger] members[j]).key == members[i].key;
                        assert(members[i] == rest[i]);
                        assert(j < rest.len());
                        assert(members[j] == rest[j]);
                    }
                }
            }
            if read_members(ListingView::empty(), members) is Ok {
                let read = read_members(ListingView::empty(), members)->Ok_0;
                assert forall|i: int|
                    0 <= i < members.len() && field_of((#[trigger] members[i]).key) == Some(
                        field,
                    ) implies value_of(read, field) == Some(members[i].value) by {
                    if i < rest.len() {
                        assert(members[i] == rest[i]);
                        assert(value_of(fields, field) == Some(rest[i].value));
                    }
                }
                if forall|i: int|
                    0 <= i < members.len() ==> field_of((#[trigger] members[i]).key) != Some(
                        field,
                    ) {
                    assert forall|i: int| 0 <= i < rest.len() implies field_of(
                        (#[trigger] rest[i]).key,
                    ) != Some(field) by {
                        assert(rest[i] == members[i]);
                    }
                }
            }
        }
    }
}

/// Members, values and errors stand for what they hold.
pub proof fn law_members_are_what_they_hold(
    members: Seq<(Vec<u8>, FieldValue)>,
    value: FieldValue,
    error: ListingError,
)
    ensures
        members_view(members).len() == members.len(),
        forall|i: int|
            0 <= i < members.len() ==> (#[trigger] members_view(members)[i]).key == members[i].0@
                && members_view(members)[i].value == members[i].1@,
        match value {
            FieldValue::Type(typ) => value@ == FieldValueView::Type(typ@),
            FieldValue::Size(size) => value@ == FieldValueView::Size(size),
            FieldValue::Executable(executable) => value@ == FieldValueView::Executable(executable),
            FieldValue::Entries(entries) => value@ == FieldValueView::Entries(entries@),
            FieldValue::Target(target) => value@ == FieldValueView::Target(target@),
        },
        match error {
            ListingError::DuplicateField(field) => error@ == ListingErrorView::DuplicateField(
                field,
            ),
            ListingError::MissingField(field) => error@ == ListingErrorView::MissingField(field),
            ListingError::UnknownVariant(typ) => error@ == ListingErrorView::UnknownVariant(typ@),
        },
{
}

/// One member is ignored, refused or taken, depending on its key alone, and what is taken is its
/// value.
pub proof fn law_one_member_is_taken(fields: ListingView, member: Member)
    ensures
        read_members(fields, Seq::empty()) == Ok::<_, ListingErrorView>(fields),
        read_members(fields, seq![member]) == read_member(fields, member),
        field_of(member.key) is None ==> read_member(fields, member) == Ok::<_, ListingErrorView>(
            fields,
        ),
        field_of(member.key) matches Some(field) ==> (if value_of(fields, field) is Some {
            read_member(fields, member) == Err::<ListingView, _>(
                ListingErrorView::DuplicateField(field),
            )
        } else {
            read_member(fields, member) == Ok::<_, ListingErrorView>(fields.with(member.value))
        }),
{
    lemma_one_member(fields, member);
}

} // verus!

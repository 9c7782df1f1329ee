//! Reading the part of a `.narinfo` file that names a store path and its references.
use crate::error::{Error, ErrorView};
use crate::package::{
    law_a_path_needs_a_dash, parsed_path, PathOriginView, StorePath, StorePathView,
};
use crate::text::{
    from_utf8, law_a_longest_valid_prefix_exists, lemma_valid_prefix_len, split_whitespace,
    starts_with, texts, trim, trimmed, utf8_error_message, valid_prefix_len, words,
};
use vstd::prelude::*;
use vstd::slice::*;
use vstd::string::*;
use vstd::utf8::*;

verus! {

/// The lines of `data`: what stands before, between and after its newlines.
pub open spec fn lines(data: Seq<u8>) -> Seq<Seq<u8>>
    decreases data.len(),
    via lines_decreases
{
    match data.index_of_first(10u8) {
        None => seq![data],
        Some(i) => seq![data.take(i)] + lines(data.skip(i + 1)),
    }
}

#[via_fn]
proof fn lines_decreases(data: Seq<u8>) {
    data.index_of_first_ensures(10u8);
}

proof fn lemma_first_line(data: Seq<u8>, n: int)
    requires
        0 <= n <= data.len(),
        forall|k: int| 0 <= k < n ==> data[k] != 10,
        n < data.len() ==> data[n] == 10,
    ensures
        n < data.len() ==> lines(data) == seq![data.take(n)] + lines(data.skip(n + 1)),
        n == data.len() ==> lines(data) == seq![data],
{
    data.index_of_first_ensures(10u8);
    if n < data.len() {
        assert(data.contains(data[n]));
        let first = data.index_of_first(10u8)->0;
        assert(first == n) by {
            if first < n {
                assert(data[first] != 10);
            }
        }
    }
}

/// The bytes of each of `slices`.
pub open spec fn slices_view(slices: Seq<&[u8]>) -> Seq<Seq<u8>> {
    slices.map_values(|slice: &[u8]| slice@)
}

/// The lines of `data`.
fn split_lines<'a>(data: &'a [u8]) -> (found: Vec<&'a [u8]>)
    ensures
        slices_view(found@) == lines(data@),
{
    let mut found: Vec<&'a [u8]> = Vec::new();
    let mut start: usize = 0;
    let mut i: usize = 0;
    assert(data@.skip(0) == data@);
    assert(lines(data@) =~= slices_view(found@) + lines(data@.skip(0)));
    while i < data.len()
        invariant
            start <= i <= data.len(),
            forall|k: int| start <= k < i ==> data@[k] != 10,
            lines(data@) == slices_view(found@) + lines(data@.skip(start as int)),
        decreases data.len() - i,
    {
        if data[i] == 10 {
            let ghost before = slices_view(found@);
            let line = slice_subrange(data, start, i);
            found.push(line);
            proof {
                let rest = data@.skip(start as int);
                lemma_first_line(rest, i - start);
                assert(rest.take(i - start) == line@);
                assert(rest.skip(i - start + 1) == data@.skip(i + 1));
                assert(slices_view(found@) =~= before.push(line@));
                assert(before + (seq![line@] + lines(data@.skip(i + 1))) =~= before.push(line@)
                    + lines(data@.skip(i + 1)));
            }
            start = i + 1;
        }
        i += 1;
    }
    let ghost before = slices_view(found@);
    let line = slice_subrange(data, start, data.len());
    found.push(line);
    proof {
        let rest = data@.skip(start as int);
        lemma_first_line(rest, rest.len() as int);
        assert(rest == line@);
        assert(slices_view(found@) =~= before + seq![line@]);
    }
    found
}

/// A store path and the store paths that it refers to.
#[derive(Debug, PartialEq, Eq)]
pub struct Narinfo {
    pub path: StorePath,
    pub references: Vec<StorePath>,
}

/// What a [`Narinfo`] stands for.
pub struct NarinfoView {
    pub path: StorePathView,
    pub references: Seq<StorePathView>,
}

/// What each of `paths` stands for.
pub open spec fn paths_view(paths: Seq<StorePath>) -> Seq<StorePathView> {
    paths.map_values(|path: StorePath| path@)
}

impl View for Narinfo {
    type V = NarinfoView;

    open spec fn view(&self) -> NarinfoView {
        NarinfoView { path: self.path@, references: paths_view(self.references@) }
    }
}

/// What a result of reading stands for.
pub open spec fn result_view(result: Result<Narinfo, Error>) -> Result<NarinfoView, ErrorView> {
    match result {
        Ok(info) => Ok(info@),
        Err(error) => Err(error@),
    }
}

/// What a line that lists the references begins with.
pub open spec fn references_key() -> Seq<u8> {
    "References:".spec_bytes()
}

/// What a line that gives the store path begins with.
pub open spec fn store_path_key() -> Seq<u8> {
    "StorePath:".spec_bytes()
}

/// The value of a line that lists the references: what follows the key.
pub open spec fn references_value(line: Seq<u8>) -> Seq<u8> {
    line.skip(references_key().len() as int)
}

/// The value of a line that gives the store path: what follows the key.
pub open spec fn store_path_value(line: Seq<u8>) -> Seq<u8> {
    line.skip(store_path_key().len() as int)
}

/// The error for a value that is not UTF-8.
pub open spec fn unicode_error(url: Seq<char>, value: Seq<u8>) -> ErrorView {
    ErrorView::Unicode {
        url,
        bytes: value,
        valid_up_to: valid_prefix_len(value),
        message: utf8_error_message(value),
    }
}

/// The store paths of `origin` that `names` denote, or the error for the first that denotes none.
pub open spec fn read_references(
    url: Seq<char>,
    origin: PathOriginView,
    names: Seq<Seq<char>>,
) -> Result<Seq<StorePathView>, ErrorView>
    decreases names.len(),
{
    if names.len() == 0 {
        Ok(Seq::empty())
    } else {
        match read_references(url, origin, names.drop_last()) {
            Err(error) => Err(error),
            Ok(paths) => match parsed_path(origin, names.last()) {
                Some(path) => Ok(paths.push(path)),
                None => Err(ErrorView::ParseStorePath(url, names.last())),
            },
        }
    }
}

/// What is known after one more line.
pub open spec fn read_line(url: Seq<char>, info: NarinfoView, line: Seq<u8>) -> Result<
    NarinfoView,
    ErrorView,
> {
    if references_key().is_prefix_of(line) {
        let value = references_value(line);
        if valid_utf8(value) {
            match read_references(
                url,
                info.path.origin.of_reference(),
                words(decode_utf8(value)),
            ) {
                Ok(references) => Ok(NarinfoView { references, ..info }),
                Err(error) => Err(error),
            }
        } else {
            Err(unicode_error(url, value))
        }
    } else if store_path_key().is_prefix_of(line) {
        let value = store_path_value(line);
        if valid_utf8(value) {
            let name = trimmed(decode_utf8(value));
            match parsed_path(info.path.origin, name) {
                Some(path) => Ok(NarinfoView { path, ..info }),
                None => Err(ErrorView::ParseStorePath(url, name)),
            }
        } else {
            Err(unicode_error(url, value))
        }
    } else {
        Ok(info)
    }
}

/// What is known after `lines`. The first line that cannot be read ends the reading.
pub open spec fn read_lines(
    url: Seq<char>,
    info: NarinfoView,
    lines: Seq<Seq<u8>>,
) -> Result<NarinfoView, ErrorView>
    decreases lines.len(),
{
    if lines.len() == 0 {
        Ok(info)
    } else {
        match read_lines(url, info, lines.drop_last()) {
            Ok(info) => read_line(url, info, lines.last()),
            Err(error) => Err(error),
        }
    }
}

/// What `data`, the content of a `.narinfo` file, says. `path` stands for the path that was asked
/// for, of which only the hash and the origin need to be known.
pub open spec fn narinfo(url: Seq<char>, path: StorePathView, data: Seq<u8>) -> Result<
    NarinfoView,
    ErrorView,
> {
    read_lines(url, NarinfoView { path, references: Seq::empty() }, lines(data))
}

/// The text of a value, or the error for a value that is not UTF-8.
fn value_text<'a>(url: &String, value: &'a [u8]) -> (result: Result<&'a str, Error>)
    ensures
        match result {
            Ok(text) => valid_utf8(value@) && text@ == decode_utf8(value@),
            Err(error) => !valid_utf8(value@) && error@ == unicode_error(url@, value@)
                && error@.wf(),
        },
{
    match from_utf8(value) {
        Ok(text) => {
            proof {
                encode_utf8_decode_utf8(text@);
            }
            Ok(text)
        },
        Err(failure) => {
            proof {
                lemma_valid_prefix_len(value@, failure.valid_up_to as int);
                assert(value@.subrange(0, value@.len() as int) == value@);
            }
            Err(Error::Unicode(url.clone(), slice_to_vec(value), failure))
        },
    }
}

/// Reads the store paths in a list of names (see [`read_references`]).
fn parse_references(url: &String, path: &StorePath, names: &Vec<String>) -> (result: Result<
    Vec<StorePath>,
    Error,
>)
    ensures
        match result {
            Ok(references) => read_references(url@, path@.origin.of_reference(), texts(names@))
                == Ok::<_, ErrorView>(paths_view(references@)),
            Err(error) => read_references(url@, path@.origin.of_reference(), texts(names@))
                == Err::<Seq<StorePathView>, _>(error@) && error@.wf(),
        },
{
    let ghost all = texts(names@);
    let ghost origin = path@.origin.of_reference();
    let mut references: Vec<StorePath> = Vec::new();
    assert(paths_view(references@) =~= Seq::empty());
    for i in 0..names.len()
        invariant
            all == texts(names@),
            origin == path@.origin.of_reference(),
            read_references(url@, origin, all.take(i as int)) == Ok::<_, ErrorView>(
                paths_view(references@),
            ),
    {
        let ghost before = paths_view(references@);
        proof {
            assert(all.take(i + 1).drop_last() == all.take(i as int));
            assert(all.take(i + 1).last() == names@[i as int]@);
        }
        match StorePath::parse(path.origin().of_reference(), names[i].as_str()) {
            Some(reference) => {
                references.push(reference);
                assert(paths_view(references@) =~= before.push(reference@));
            },
            None => {
                let error = Error::ParseStorePath(url.clone(), names[i].clone());
                proof {
                    lemma_references_error(url@, origin, all, i + 1);
                }
                return Err(error);
            },
        }
    }
    assert(all.take(names.len() as int) == all);
    Ok(references)
}

proof fn lemma_references_error(
    url: Seq<char>,
    origin: PathOriginView,
    names: Seq<Seq<char>>,
    n: int,
)
    requires
        0 <= n <= names.len(),
        read_references(url, origin, names.take(n)) is Err,
    ensures
        read_references(url, origin, names) == read_references(url, origin, names.take(n)),
    decreases names.len() - n,
{
    if n == names.len() {
        assert(names.take(n) == names);
    } else {
        assert(names.drop_last().take(n) == names.take(n));
        lemma_references_error(url, origin, names.drop_last(), n);
    }
}

impl Narinfo {
    /// Takes one more line into account (see [`read_line`]).
    fn read_line(self, url: &String, line: &[u8]) -> (result: Result<Narinfo, Error>)
        ensures
            read_line(url@, self@, line@) == result_view(result),
            result matches Err(error) ==> error@.wf(),
    {
        if starts_with(line, "References:".as_bytes()) {
            let value = slice_subrange(line, "References:".as_bytes().len(), line.len());
            assert(value@ == references_value(line@));
            let text = match value_text(url, value) {
                Ok(text) => text,
                Err(error) => return Err(error),
            };
            match parse_references(url, &self.path, &split_whitespace(text)) {
                Ok(references) => Ok(Narinfo { path: self.path, references }),
                Err(error) => Err(error),
            }
        } else if starts_with(line, "StorePath:".as_bytes()) {
            let value = slice_subrange(line, "StorePath:".as_bytes().len(), line.len());
            assert(value@ == store_path_value(line@));
            let text = match value_text(url, value) {
                Ok(text) => text,
                Err(error) => return Err(error),
            };
            let name = trim(text);
            match StorePath::parse(self.path.origin().clone(), name) {
                Some(path) => Ok(Narinfo { path, references: self.references }),
                None => Err(Error::ParseStorePath(url.clone(), name.to_owned())),
            }
        } else {
            Ok(self)
        }
    }
}

/// Reads the content of a `.narinfo` file (see [`narinfo`]).
pub fn parse_narinfo(url: &String, path: StorePath, data: &[u8]) -> (result: Result<Narinfo, Error>)
    ensures
        narinfo(url@, path@, data@) == result_view(result),
        result matches Err(error) ==> error@.wf(),
{
    let ghost all = lines(data@);
    let ghost start = NarinfoView { path: path@, references: Seq::empty() };
    let found = split_lines(data);
    let mut info = Narinfo { path, references: Vec::new() };
    assert(info@.references =~= start.references);
    assert(info@ == start);
    let mut i: usize = 0;
    while i < found.len()
        invariant
            i <= found.len(),
            all == slices_view(found@),
            read_lines(url@, start, all.take(i as int)) == Ok::<_, ErrorView>(info@),
            all == lines(data@),
            start == (NarinfoView { path: path@, references: Seq::empty() }),
        decreases found.len() - i,
    {
        proof {
            assert(all.take(i + 1).drop_last() == all.take(i as int));
            assert(all.take(i + 1).last() == found@[i as int]@);
        }
        match info.read_line(url, found[i]) {
            Ok(next) => {
                info = next;
            },
            Err(error) => {
                proof {
                    lemma_lines_stopped(url@, start, all, i + 1);
                }
                return Err(error);
            },
        }
        i += 1;
    }
    assert(all.take(found.len() as int) == all);
    Ok(info)
}

proof fn lemma_lines_stopped(url: Seq<char>, info: NarinfoView, lines: Seq<Seq<u8>>, n: int)
    requires
        0 <= n <= lines.len(),
        read_lines(url, info, lines.take(n)) is Err,
    ensures
        read_lines(url, info, lines) == read_lines(url, info, lines.take(n)),
    decreases lines.len() - n,
{
    if n == lines.len() {
        assert(lines.take(n) == lines);
    } else {
        assert(lines.drop_last().take(n) == lines.take(n));
        lemma_lines_stopped(url, info, lines.drop_last(), n);
    }
}

/// Whether a line lists the references.
pub open spec fn is_references_line(line: Seq<u8>) -> bool {
    references_key().is_prefix_of(line)
}

/// Whether a line gives the store path.
pub open spec fn is_store_path_line(line: Seq<u8>) -> bool {
    store_path_key().is_prefix_of(line)
}

/// No line both lists the references and gives the store path.
pub proof fn law_keys_exclude_each_other(line: Seq<u8>)
    ensures
        !(is_references_line(line) && is_store_path_line(line)),
{
    reveal_strlit("References:");
    reveal_strlit("StorePath:");
    assert(is_ascii("References:"));
    assert(is_ascii("StorePath:"));
    is_ascii_spec_bytes("References:");
    is_ascii_spec_bytes("StorePath:");
    if is_references_line(line) && is_store_path_line(line) {
        assert(line[0] == references_key()[0]);
        assert(line[0] == store_path_key()[0]);
    }
}

/// Reading some lines and then more lines is reading all of them.
pub proof fn law_reading_is_stepwise(
    url: Seq<char>,
    info: NarinfoView,
    first: Seq<Seq<u8>>,
    second: Seq<Seq<u8>>,
)
    ensures
        read_lines(url, info, first + second) == match read_lines(url, info, first) {
            Ok(between) => read_lines(url, between, second),
            Err(error) => Err(error),
        },
    decreases second.len(),
{
    if second.len() == 0 {
        assert(first + second == first);
    } else {
        assert((first + second).drop_last() == first + second.drop_last());
        assert((first + second).last() == second.last());
        law_reading_is_stepwise(url, info, first, second.drop_last());
    }
}

/// A line of any other kind makes no difference, wherever it stands.
pub proof fn law_other_lines_are_ignored(
    url: Seq<char>,
    info: NarinfoView,
    before: Seq<Seq<u8>>,
    line: Seq<u8>,
    after: Seq<Seq<u8>>,
)
    requires
        !is_references_line(line),
        !is_store_path_line(line),
    ensures
        read_lines(url, info, before + seq![line] + after) == read_lines(url, info, before + after),
{
    law_reading_is_stepwise(url, info, before, seq![line]);
    law_reading_is_stepwise(url, info, before + seq![line], after);
    law_reading_is_stepwise(url, info, before, after);
    if let Ok(between) = read_lines(url, info, before) {
        lemma_one_line(url, between, line);
    }
}

/// The origin that was asked for is that of the path that is returned, and each reference has the
/// same origin, except that it is not a top-level path.
pub proof fn law_origins_are_kept(url: Seq<char>, path: StorePathView, data: Seq<u8>)
    ensures
        narinfo(url, path, data) matches Ok(info) ==> {
            &&& info.path.origin == path.origin
            &&& forall|i: int|
                0 <= i < info.references.len() ==> (#[trigger] info.references[i]).origin
                    == path.origin.of_reference()
        },
{
    lemma_origins(url, NarinfoView { path, references: Seq::empty() }, lines(data));
}

spec fn origins_agree(info: NarinfoView, origin: PathOriginView) -> bool {
    &&& info.path.origin == origin
    &&& forall|i: int|
        0 <= i < info.references.len() ==> (#[trigger] info.references[i]).origin
            == origin.of_reference()
}

proof fn lemma_origins(url: Seq<char>, info: NarinfoView, lines: Seq<Seq<u8>>)
    requires
        origins_agree(info, info.path.origin),
    ensures
        read_lines(url, info, lines) matches Ok(read) ==> origins_agree(
            read,
            info.path.origin,
        ),
    decreases lines.len(),
{
    if lines.len() != 0 {
        lemma_origins(url, info, lines.drop_last());
        if let Ok(between) = read_lines(url, info, lines.drop_last()) {
            let value = references_value(lines.last());
            lemma_reference_origins(
                url,
                between.path.origin.of_reference(),
                words(decode_utf8(value)),
            );
        }
    }
}

proof fn lemma_reference_origins(url: Seq<char>, origin: PathOriginView, names: Seq<Seq<char>>)
    ensures
        read_references(url, origin, names) matches Ok(paths) ==> {
            &&& paths.len() == names.len()
            &&& forall|i: int|
                0 <= i < paths.len() ==> parsed_path(origin, names[i]) == Some(
                    #[trigger] paths[i],
                ) && paths[i].origin == origin
        },
    decreases names.len(),
{
    if names.len() != 0 {
        lemma_reference_origins(url, origin, names.drop_last());
    }
}

/// A file is read without error only if each name on the last line that lists references denotes a
/// store path, and then those, in order, are the references. Lines after it that list none change
/// nothing about that.
pub proof fn law_last_references_line_counts(
    url: Seq<char>,
    info: NarinfoView,
    before: Seq<Seq<u8>>,
    line: Seq<u8>,
    after: Seq<Seq<u8>>,
)
    requires
        is_references_line(line),
        forall|i: int| 0 <= i < after.len() ==> !is_references_line(#[trigger] after[i]),
    ensures
        read_lines(url, info, before + seq![line] + after) matches Ok(read) ==> {
            let names = words(decode_utf8(references_value(line)));
            &&& valid_utf8(references_value(line))
            &&& read.references.len() == names.len()
            &&& forall|i: int|
                0 <= i < names.len() ==> parsed_path(
                    info.path.origin.of_reference(),
                    #[trigger] names[i],
                ) == Some(read.references[i])
        },
{
    law_reading_is_stepwise(url, info, before, seq![line]);
    law_reading_is_stepwise(url, info, before + seq![line], after);
    if let Ok(between) = read_lines(url, info, before) {
        lemma_path_origin(url, info, before);
        lemma_one_line(url, between, line);
        if let Ok(read) = read_line(url, between, line) {
            lemma_reference_origins(
                url,
                between.path.origin.of_reference(),
                words(decode_utf8(references_value(line))),
            );
            lemma_references_kept(url, read, after);
        }
    }
}

proof fn lemma_path_origin(url: Seq<char>, info: NarinfoView, lines: Seq<Seq<u8>>)
    ensures
        read_lines(url, info, lines) matches Ok(read) ==> read.path.origin
            == info.path.origin,
    decreases lines.len(),
{
    if lines.len() != 0 {
        lemma_path_origin(url, info, lines.drop_last());
    }
}

proof fn lemma_references_kept(url: Seq<char>, info: NarinfoView, lines: Seq<Seq<u8>>)
    requires
        forall|i: int| 0 <= i < lines.len() ==> !is_references_line(#[trigger] lines[i]),
    ensures
        read_lines(url, info, lines) matches Ok(read) ==> read.references == info.references,
    decreases lines.len(),
{
    if lines.len() != 0 {
        let rest = lines.drop_last();
        assert forall|i: int| 0 <= i < rest.len() implies !is_references_line(
            #[trigger] rest[i],
        ) by {
            assert(rest[i] == lines[i]);
        }
        lemma_references_kept(url, info, rest);
        assert(!is_references_line(lines[lines.len() - 1]));
    }
}

proof fn lemma_path_kept(url: Seq<char>, info: NarinfoView, lines: Seq<Seq<u8>>)
    requires
        forall|i: int| 0 <= i < lines.len() ==> !is_store_path_line(#[trigger] lines[i]),
    ensures
        read_lines(url, info, lines) matches Ok(read) ==> read.path == info.path,
    decreases lines.len(),
{
    if lines.len() != 0 {
        let rest = lines.drop_last();
        assert forall|i: int| 0 <= i < rest.len() implies !is_store_path_line(
            #[trigger] rest[i],
        ) by {
            assert(rest[i] == lines[i]);
        }
        lemma_path_kept(url, info, rest);
        assert(!is_store_path_line(lines[lines.len() - 1]));
    }
}

/// Whatever path was asked for, the path that is returned is the full one on the last line that
/// gives a store path.
pub proof fn law_path_is_resolved(
    url: Seq<char>,
    info: NarinfoView,
    before: Seq<Seq<u8>>,
    line: Seq<u8>,
    after: Seq<Seq<u8>>,
)
    requires
        is_store_path_line(line),
        forall|i: int| 0 <= i < after.len() ==> !is_store_path_line(#[trigger] after[i]),
    ensures
        read_lines(url, info, before + seq![line] + after) matches Ok(read) ==> valid_utf8(
            store_path_value(line),
        ) && parsed_path(info.path.origin, trimmed(decode_utf8(store_path_value(line)))) == Some(
            read.path,
        ),
{
    law_keys_exclude_each_other(line);
    law_reading_is_stepwise(url, info, before, seq![line]);
    law_reading_is_stepwise(url, info, before + seq![line], after);
    if let Ok(between) = read_lines(url, info, before) {
        lemma_path_origin(url, info, before);
        lemma_one_line(url, between, line);
        if let Ok(read) = read_line(url, between, line) {
            lemma_path_kept(url, read, after);
        }
    }
}

/// Without a line that gives a store path, the path is the one that was asked for, and without a
/// line that lists references there are none.
pub proof fn law_missing_lines_leave_the_start(
    url: Seq<char>,
    path: StorePathView,
    data: Seq<u8>,
)
    ensures
        narinfo(url, path, data) matches Ok(info) ==> {
            &&& (forall|i: int|
                0 <= i < lines(data).len() ==> !is_store_path_line(#[trigger] lines(data)[i]))
                ==> info.path == path
            &&& (forall|i: int|
                0 <= i < lines(data).len() ==> !is_references_line(#[trigger] lines(data)[i]))
                ==> info.references.len() == 0
        },
{
    let start = NarinfoView { path, references: Seq::empty() };
    if forall|i: int|
        0 <= i < lines(data).len() ==> !is_store_path_line(#[trigger] lines(data)[i]) {
        lemma_path_kept(url, start, lines(data));
    }
    if forall|i: int|
        0 <= i < lines(data).len() ==> !is_references_line(#[trigger] lines(data)[i]) {
        lemma_references_kept(url, start, lines(data));
    }
}

/// Whether a line can be read: the value of a line that lists references or gives the store path is
/// UTF-8, and denotes store paths.
pub open spec fn line_is_valid(origin: PathOriginView, line: Seq<u8>) -> bool {
    &&& is_references_line(line) ==> {
        let names = words(decode_utf8(references_value(line)));
        &&& valid_utf8(references_value(line))
        &&& forall|i: int|
            0 <= i < names.len() ==> parsed_path(
                origin.of_reference(),
                #[trigger] names[i],
            ) is Some
    }
    &&& is_store_path_line(line) ==> valid_utf8(store_path_value(line)) && parsed_path(
        origin,
        trimmed(decode_utf8(store_path_value(line))),
    ) is Some
}

/// A file is read without error exactly if each of its lines can be read.
pub proof fn law_valid_lines_are_read(url: Seq<char>, path: StorePathView, data: Seq<u8>)
    ensures
        narinfo(url, path, data) is Ok <==> forall|i: int|
            0 <= i < lines(data).len() ==> line_is_valid(path.origin, #[trigger] lines(data)[i]),
{
    lemma_valid_lines(url, NarinfoView { path, references: Seq::empty() }, lines(data));
}

proof fn lemma_valid_lines(url: Seq<char>, info: NarinfoView, lines: Seq<Seq<u8>>)
    ensures
        read_lines(url, info, lines) is Ok <==> forall|i: int|
            0 <= i < lines.len() ==> line_is_valid(info.path.origin, #[trigger] lines[i]),
    decreases lines.len(),
{
    if lines.len() != 0 {
        let rest = lines.drop_last();
        let last = lines.last();
        let origin = info.path.origin;
        lemma_valid_lines(url, info, rest);
        lemma_path_origin(url, info, rest);
        law_keys_exclude_each_other(last);
        lemma_references_read(
            url,
            origin.of_reference(),
            words(decode_utf8(references_value(last))),
        );
        assert(last == lines[lines.len() - 1]);
        if forall|i: int| 0 <= i < lines.len() ==> line_is_valid(origin, #[trigger] lines[i]) {
            assert forall|i: int| 0 <= i < rest.len() implies line_is_valid(
                origin,
                #[trigger] rest[i],
            ) by {
                assert(rest[i] == lines[i]);
            }
        }
        if read_lines(url, info, lines) is Ok {
            assert forall|i: int| 0 <= i < lines.len() implies line_is_valid(
                origin,
                #[trigger] lines[i],
            ) by {
                if i < rest.len() {
                    assert(line_is_valid(origin, rest[i]));
                }
            }
        }
    }
}

proof fn lemma_references_read(url: Seq<char>, origin: PathOriginView, names: Seq<Seq<char>>)
    ensures
        read_references(url, origin, names) is Ok <==> forall|i: int|
            0 <= i < names.len() ==> parsed_path(origin, #[trigger] names[i]) is Some,
    decreases names.len(),
{
    if names.len() != 0 {
        let rest = names.drop_last();
        lemma_references_read(url, origin, rest);
        assert(names.last() == names[names.len() - 1]);
        if forall|i: int| 0 <= i < names.len() ==> parsed_path(origin, #[trigger] names[i]) is Some {
            assert forall|i: int| 0 <= i < rest.len() implies parsed_path(
                origin,
                #[trigger] rest[i],
            ) is Some by {
                assert(rest[i] == names[i]);
            }
        }
        if read_references(url, origin, names) is Ok {
            assert forall|i: int| 0 <= i < names.len() implies parsed_path(
                origin,
                #[trigger] names[i],
            ) is Some by {
                if i < rest.len() {
                    assert(parsed_path(origin, rest[i]) is Some);
                }
            }
        }
    }
}

/// Whether two results are the same, except that each may still hold the path that was asked for.
pub open spec fn agree(
    asked: StorePathView,
    left: Result<NarinfoView, ErrorView>,
    other: StorePathView,
    right: Result<NarinfoView, ErrorView>,
) -> bool {
    match (left, right) {
        (Ok(a), Ok(b)) => a.references == b.references && (a.path == b.path || (a.path == asked
            && b.path == other)),
        _ => left is Err && left == right,
    }
}

/// Of the path that was asked for, only the origin makes a difference to what a file says. Where a
/// line gives the store path, nothing else of it is left in the result.
pub proof fn law_only_the_origin_matters(
    url: Seq<char>,
    asked: StorePathView,
    other: StorePathView,
    data: Seq<u8>,
)
    requires
        asked.origin == other.origin,
    ensures
        agree(asked, narinfo(url, asked, data), other, narinfo(url, other, data)),
        (exists|i: int| 0 <= i < lines(data).len() && is_store_path_line(#[trigger] lines(data)[i]))
            ==> narinfo(url, asked, data) == narinfo(url, other, data),
{
    let all = lines(data);
    let start = NarinfoView { path: asked, references: Seq::empty() };
    let other_start = NarinfoView { path: other, references: Seq::empty() };
    lemma_agree(url, start, other_start, all);
    if exists|i: int| 0 <= i < all.len() && is_store_path_line(#[trigger] all[i]) {
        let i = choose|i: int| 0 <= i < all.len() && is_store_path_line(#[trigger] all[i]);
        let before = all.take(i);
        let line = all[i];
        let after = all.skip(i + 1);
        assert(all =~= before + seq![line] + after);
        law_reading_is_stepwise(url, start, before, seq![line]);
        law_reading_is_stepwise(url, start, before + seq![line], after);
        law_reading_is_stepwise(url, other_start, before, seq![line]);
        law_reading_is_stepwise(url, other_start, before + seq![line], after);
        lemma_agree(url, start, other_start, before);
        lemma_path_origin(url, start, before);
        lemma_path_origin(url, other_start, before);
        law_keys_exclude_each_other(line);
        if let Ok(between) = read_lines(url, start, before) {
            let other_between = read_lines(url, other_start, before)->Ok_0;
            lemma_one_line(url, between, line);
            lemma_one_line(url, other_between, line);
        }
    }
}

proof fn lemma_one_line(url: Seq<char>, info: NarinfoView, line: Seq<u8>)
    ensures
        read_lines(url, info, seq![line]) == read_line(url, info, line),
{
    assert(seq![line].drop_last() == Seq::<Seq<u8>>::empty());
    assert(read_lines(url, info, seq![line].drop_last()) == Ok::<_, ErrorView>(info));
}

proof fn lemma_agree(url: Seq<char>, left: NarinfoView, right: NarinfoView, lines: Seq<Seq<u8>>)
    requires
        left.path.origin == right.path.origin,
        left.references == right.references,
    ensures
        agree(left.path, read_lines(url, left, lines), right.path, read_lines(url, right, lines)),
    decreases lines.len(),
{
    if lines.len() != 0 {
        lemma_agree(url, left, right, lines.drop_last());
        lemma_path_origin(url, left, lines.drop_last());
        lemma_path_origin(url, right, lines.drop_last());
    }
}

/// The bytes before a newline are a line, and so is what has no newline; the lines after the newline
/// are the lines of the rest.
pub proof fn law_newlines_separate_lines(first: Seq<u8>, rest: Seq<u8>)
    requires
        !first.contains(10u8),
    ensures
        lines(first) == seq![first],
        lines(first.push(10u8) + rest) == seq![first] + lines(rest),
{
    first.index_of_first_ensures(10u8);
    let data = first.push(10u8) + rest;
    let n = first.len() as int;
    assert forall|k: int| 0 <= k < n implies data[k] != 10 by {
        assert(data[k] == first[k]);
    }
    assert(data[n] == 10);
    lemma_first_line(data, n);
    assert(data.take(n) =~= first);
    assert(data.skip(n + 1) =~= rest);
}

/// The keys are what a line begins with in the file.
pub proof fn law_keys_are_in_the_file(line: Seq<u8>)
    ensures
        is_references_line(line) <==> "References:".spec_bytes().is_prefix_of(line),
        is_store_path_line(line) <==> "StorePath:".spec_bytes().is_prefix_of(line),
{
}

/// A line that lists references, with anything after its key. Every word denotes a reference, in
/// order; the first one that denotes none is the error, and so is a value that is not UTF-8. The path
/// stays as it is.
pub proof fn law_every_reference_is_read(url: Seq<char>, info: NarinfoView, value: Seq<u8>)
    ensures
        ({
            let result = read_line(url, info, "References:".spec_bytes() + value);
            let names = words(decode_utf8(value));
            let origin = info.path.origin.of_reference();
            &&& !valid_utf8(value) ==> is_unicode_error(result, url, value)
            &&& valid_utf8(value) ==> (result is Ok <==> forall|i: int|
                0 <= i < names.len() ==> (#[trigger] names[i]).contains('-'))
            &&& result matches Ok(read) ==> {
                &&& read.path == info.path
                &&& read.references.len() == names.len()
                &&& forall|i: int|
                    0 <= i < names.len() ==> parsed_path(origin, names[i]) == Some(
                        #[trigger] read.references[i],
                    )
            }
            &&& valid_utf8(value) && result is Err ==> exists|k: int|
                0 <= k < names.len() && !(#[trigger] names[k]).contains('-') && (forall|j: int|
                    0 <= j < k ==> (#[trigger] names[j]).contains('-')) && result == Err::<
                    NarinfoView,
                    _,
                >(ErrorView::ParseStorePath(url, names[k]))
        }),
{
    let line = "References:".spec_bytes() + value;
    let names = words(decode_utf8(value));
    let origin = info.path.origin.of_reference();
    assert(references_key().is_prefix_of(line)) by {
        assert(line.subrange(0, references_key().len() as int) =~= references_key());
    }
    assert(references_value(line) =~= value);
    law_a_longest_valid_prefix_exists(value);
    lemma_references_read(url, origin, names);
    lemma_reference_origins(url, origin, names);
    assert forall|i: int| 0 <= i < names.len() implies (parsed_path(
        origin,
        #[trigger] names[i],
    ) is Some <==> names[i].contains('-')) by {
        law_a_path_needs_a_dash(origin, names[i]);
    }
    if valid_utf8(value) && read_references(url, origin, names) is Err {
        lemma_first_bad_name(url, origin, names);
    }
}

/// Whether a result is the error for a value that is not UTF-8: it holds the value, the length of its
/// longest valid prefix, and what was said about it.
pub open spec fn is_unicode_error(
    result: Result<NarinfoView, ErrorView>,
    url: Seq<char>,
    value: Seq<u8>,
) -> bool {
    result matches Err(ErrorView::Unicode { url: from, bytes, valid_up_to, message }) && from == url
        && bytes == value && message == utf8_error_message(value) && 0 <= valid_up_to
        < value.len() && valid_utf8(value.take(valid_up_to)) && forall|m: int|
        valid_up_to < m <= value.len() ==> !valid_utf8(#[trigger] value.take(m))
}

proof fn lemma_first_bad_name(url: Seq<char>, origin: PathOriginView, names: Seq<Seq<char>>)
    requires
        read_references(url, origin, names) is Err,
    ensures
        exists|k: int|
            0 <= k < names.len() && !(#[trigger] names[k]).contains('-') && (forall|j: int|
                0 <= j < k ==> (#[trigger] names[j]).contains('-')) && read_references(
                url,
                origin,
                names,
            ) == Err::<Seq<StorePathView>, _>(ErrorView::ParseStorePath(url, names[k])),
    decreases names.len(),
{
    let rest = names.drop_last();
    if read_references(url, origin, rest) is Err {
        lemma_first_bad_name(url, origin, rest);
        let k = choose|k: int|
            0 <= k < rest.len() && !(#[trigger] rest[k]).contains('-') && (forall|j: int|
                0 <= j < k ==> (#[trigger] rest[j]).contains('-')) && read_references(
                url,
                origin,
                rest,
            ) == Err::<Seq<StorePathView>, _>(ErrorView::ParseStorePath(url, rest[k]));
        assert(names[k] == rest[k]);
        assert forall|j: int| 0 <= j < k implies (#[trigger] names[j]).contains('-') by {
            assert(names[j] == rest[j]);
        }
    } else {
        let k = names.len() - 1;
        law_a_path_needs_a_dash(origin, names[k]);
        lemma_references_read(url, origin, rest);
        assert forall|j: int| 0 <= j < k implies (#[trigger] names[j]).contains('-') by {
            assert(names[j] == rest[j]);
            law_a_path_needs_a_dash(origin, names[j]);
        }
        assert(!names[k].contains('-'));
    }
}

/// A line that gives the store path, with anything after its key. The value without the white space
/// around it denotes the path; it is an error where it denotes none, or is not UTF-8. The references
/// stay as they are.
pub proof fn law_the_store_path_is_read(url: Seq<char>, info: NarinfoView, value: Seq<u8>)
    ensures
        ({
            let result = read_line(url, info, "StorePath:".spec_bytes() + value);
            let name = trimmed(decode_utf8(value));
            &&& !valid_utf8(value) ==> is_unicode_error(result, url, value)
            &&& valid_utf8(value) && !name.contains('-') ==> result == Err::<NarinfoView, _>(
                ErrorView::ParseStorePath(url, name),
            )
            &&& valid_utf8(value) && name.contains('-') ==> (result matches Ok(read)
                && read.references == info.references && parsed_path(info.path.origin, name)
                == Some(read.path))
        }),
{
    let line = "StorePath:".spec_bytes() + value;
    assert(store_path_key().is_prefix_of(line)) by {
        assert(line.subrange(0, store_path_key().len() as int) =~= store_path_key());
    }
    assert(store_path_value(line) =~= value);
    law_keys_exclude_each_other(line);
    law_a_longest_valid_prefix_exists(value);
    law_a_path_needs_a_dash(info.path.origin, trimmed(decode_utf8(value)));
}

/// A file is read line by line: without a line nothing is known but what was asked for; a line that
/// can be read adds to what the lines before it said, and the first one that cannot be read ends it.
pub proof fn law_lines_are_read_in_order(
    url: Seq<char>,
    path: StorePathView,
    info: NarinfoView,
    before: Seq<Seq<u8>>,
    line: Seq<u8>,
    after: Seq<Seq<u8>>,
    data: Seq<u8>,
)
    ensures
        narinfo(url, path, data) == read_lines(
            url,
            NarinfoView { path, references: Seq::empty() },
            lines(data),
        ),
        read_lines(url, info, Seq::empty()) == Ok::<_, ErrorView>(info),
        read_lines(url, info, seq![line]) == read_line(url, info, line),
        read_lines(url, info, before) is Ok && read_line(
            url,
            read_lines(url, info, before)->Ok_0,
            line,
        ) is Err ==> read_lines(url, info, before + seq![line] + after) == read_line(
            url,
            read_lines(url, info, before)->Ok_0,
            line,
        ),
        !"References:".spec_bytes().is_prefix_of(line) && !"StorePath:".spec_bytes().is_prefix_of(
            line,
        ) ==> read_line(url, info, line) == Ok::<_, ErrorView>(info),
{
    lemma_one_line(url, info, line);
    if let Ok(between) = read_lines(url, info, before) {
        lemma_one_line(url, between, line);
        law_reading_is_stepwise(url, info, before, seq![line]);
        law_reading_is_stepwise(url, info, before + seq![line], after);
    }
}

/// Store paths stand for each of them, in order, and a result for what it holds.
pub proof fn law_infos_are_what_they_hold(
    paths: Seq<StorePath>,
    info: Narinfo,
    result: Result<Narinfo, Error>,
)
    ensures
        paths_view(paths).len() == paths.len(),
        forall|i: int| 0 <= i < paths.len() ==> #[trigger] paths_view(paths)[i] == paths[i]@,
        info@.path == info.path@,
        info@.references == paths_view(info.references@),
        match result {
            Ok(info) => result_view(result) == Ok::<_, ErrorView>(info@),
            Err(error) => result_view(result) == Err::<NarinfoView, _>(error@),
        },
{
}

} // verus!

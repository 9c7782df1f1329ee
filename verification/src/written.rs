//! A `.narinfo` file that was written from a store path and its references reads back as these.
use crate::error::ErrorView;
use crate::narinfo::{
    law_keys_exclude_each_other, lines, narinfo, read_line, read_lines, read_references,
    references_key, references_value, store_path_key, store_path_value, NarinfoView,
};
use crate::package::{parsed_path, PathOriginView, StorePathView};
use crate::text::{is_white_space, trimmed, word_len, words};
use vstd::prelude::*;
use vstd::string::*;
use vstd::utf8::*;

verus! {

/// Whether `text` is one word: not empty, and without white space.
pub open spec fn is_word(text: Seq<char>) -> bool {
    text.len() > 0 && forall|i: int|
        0 <= i < text.len() ==> !is_white_space(#[trigger] text[i])
}

/// Each of `names` with a space before it.
pub open spec fn spaced(names: Seq<Seq<char>>) -> Seq<char>
    decreases names.len(),
{
    if names.len() == 0 {
        Seq::empty()
    } else {
        seq![' '] + names[0] + spaced(names.drop_first())
    }
}

/// Whether `text` holds nothing but white space, and no newline.
pub open spec fn is_blank(text: Seq<char>) -> bool {
    forall|i: int| 0 <= i < text.len() ==> is_white_space(#[trigger] text[i]) && text[i] != '\n'
}

/// The line for a store path, with some space after the key.
pub open spec fn store_path_line(blank: Seq<char>, path: Seq<char>) -> Seq<char> {
    "StorePath:"@ + (blank + path)
}

/// The line for references.
pub open spec fn references_line(names: Seq<Seq<char>>) -> Seq<char> {
    "References:"@ + spaced(names)
}

/// The lines for a store path and its references, each with a newline after it.
pub open spec fn written(blank: Seq<char>, path: Seq<char>, names: Seq<Seq<char>>) -> Seq<u8> {
    encode_utf8(store_path_line(blank, path)).push(10u8) + encode_utf8(
        references_line(names),
    ).push(10u8)
}

/// Lines without newlines can be read back from the data in which each of them ends with one; what
/// follows the last newline is an empty line.
pub proof fn law_lines_are_read_back(first: Seq<u8>, rest: Seq<u8>)
    requires
        !first.contains(10u8),
    ensures
        lines(first.push(10u8) + rest) == seq![first] + lines(rest),
        lines(Seq::<u8>::empty()) == seq![Seq::<u8>::empty()],
{
    let data = first.push(10u8) + rest;
    let n = first.len() as int;
    data.index_of_first_ensures(10u8);
    assert(data[n] == 10u8);
    assert(data.contains(10u8));
    let i = data.index_of_first(10u8)->0;
    assert(i == n) by {
        if i < n {
            assert(first[i] == 10u8);
        }
    }
    assert(data.take(n) =~= first);
    assert(data.skip(n + 1) =~= rest);
    Seq::<u8>::empty().index_of_first_ensures(10u8);
}

proof fn lemma_encode_concat(a: Seq<char>, b: Seq<char>)
    ensures
        encode_utf8(a + b) == encode_utf8(a) + encode_utf8(b),
    decreases a.len(),
{
    if a.len() == 0 {
        assert(a + b =~= b);
    } else {
        assert((a + b).drop_first() =~= a.drop_first() + b);
        lemma_encode_concat(a.drop_first(), b);
        assert(encode_utf8(a + b) =~= encode_utf8(a) + encode_utf8(b));
    }
}

proof fn lemma_scalar_without_newline(c: u32)
    requires
        is_scalar(c),
        c != 10,
    ensures
        !encode_scalar(c).contains(10u8),
{
    let bytes = encode_scalar(c);
    assert(has_width_1_encoding(c) ==> leading_byte_width_1(c) != 10) by (bit_vector)
        requires
            c != 10,
    ;
    assert(leading_byte_width_2(c) != 10 && leading_byte_width_3(c) != 10 && leading_byte_width_4(c)
        != 10) by (bit_vector);
    assert(last_continuation_byte(c) != 10 && second_last_continuation_byte(c) != 10
        && third_last_continuation_byte(c) != 10) by (bit_vector);
}

proof fn lemma_encode_without_newline(text: Seq<char>)
    requires
        !text.contains('\n'),
    ensures
        !encode_utf8(text).contains(10u8),
    decreases text.len(),
{
    if text.len() != 0 {
        let rest = text.drop_first();
        assert(text.contains(text[0]));
        assert(!rest.contains('\n')) by {
            if rest.contains('\n') {
                let i = choose|i: int| 0 <= i < rest.len() && rest[i] == '\n';
                assert(text[i + 1] == '\n');
            }
        }
        char_is_scalar(text[0]);
        assert(text[0] as u32 != 10) by {
            if text[0] as u32 == 10 {
                char_u32_cast(text[0], 10);
            }
        }
        lemma_scalar_without_newline(text[0] as u32);
        lemma_encode_without_newline(rest);
        let first = encode_scalar(text[0] as u32);
        assert forall|i: int| 0 <= i < encode_utf8(text).len() implies encode_utf8(text)[i]
            != 10u8 by {
            if i < first.len() {
                assert(first.contains(first[i]));
            } else {
                assert(encode_utf8(rest).contains(encode_utf8(rest)[i - first.len()]));
            }
        }
    }
}

proof fn lemma_word_len(name: Seq<char>, rest: Seq<char>)
    requires
        forall|i: int| 0 <= i < name.len() ==> !is_white_space(#[trigger] name[i]),
        rest.len() == 0 || is_white_space(rest[0]),
    ensures
        word_len(name + rest) == name.len(),
    decreases name.len(),
{
    if name.len() == 0 {
        assert(name + rest =~= rest);
    } else {
        assert((name + rest)[0] == name[0]);
        assert((name + rest).drop_first() =~= name.drop_first() + rest);
        assert forall|i: int| 0 <= i < name.drop_first().len() implies !is_white_space(
            #[trigger] name.drop_first()[i],
        ) by {
            assert(name.drop_first()[i] == name[i + 1]);
        }
        lemma_word_len(name.drop_first(), rest);
    }
}

/// Words that were put behind one another with spaces are told apart again.
pub proof fn law_words_are_read_back(names: Seq<Seq<char>>)
    requires
        forall|i: int| 0 <= i < names.len() ==> is_word(#[trigger] names[i]),
    ensures
        words(spaced(names)) == names,
    decreases names.len(),
{
    let text = spaced(names);
    if names.len() == 0 {
        assert(words(text) =~= names);
    } else {
        let name = names[0];
        let others = names.drop_first();
        let rest = spaced(others);
        assert forall|i: int| 0 <= i < others.len() implies is_word(#[trigger] others[i]) by {
            assert(others[i] == names[i + 1]);
        }
        law_words_are_read_back(others);
        assert(is_word(names[0]));
        assert(text.drop_first() =~= name + rest);
        assert(is_white_space(text[0]));
        assert((name + rest)[0] == name[0]);
        assert(!is_white_space(name[0]));
        lemma_word_len(name, rest);
        assert((name + rest).take(name.len() as int) =~= name);
        assert((name + rest).skip(name.len() as int) =~= rest);
        assert(words(text) == words(name + rest));
        assert(words(name + rest) == seq![name] + words(rest));
        assert(seq![name] + others =~= names);
    }
}

proof fn lemma_spaced_without_newline(names: Seq<Seq<char>>)
    requires
        forall|i: int| 0 <= i < names.len() ==> is_word(#[trigger] names[i]),
    ensures
        !spaced(names).contains('\n'),
    decreases names.len(),
{
    if names.len() != 0 {
        let others = names.drop_first();
        assert forall|i: int| 0 <= i < others.len() implies is_word(#[trigger] others[i]) by {
            assert(others[i] == names[i + 1]);
        }
        lemma_spaced_without_newline(others);
        let name = names[0];
        assert(is_word(names[0]));
        let text = spaced(names);
        assert forall|i: int| 0 <= i < text.len() implies text[i] != '\n' by {
            if 1 <= i <= name.len() {
                assert(text[i] == name[i - 1]);
                assert(!is_white_space(name[i - 1]));
            } else if i > name.len() {
                assert(text[i] == spaced(others)[i - 1 - name.len()]);
                assert(spaced(others).contains(spaced(others)[i - 1 - name.len()]));
            }
        }
    }
}

proof fn lemma_trimmed_word(blank: Seq<char>, text: Seq<char>)
    requires
        is_blank(blank),
        is_word(text),
    ensures
        trimmed(blank + text) == text,
    decreases blank.len(),
{
    if blank.len() == 0 {
        assert(blank + text =~= text);
        assert(!is_white_space(text[0]));
        assert(!is_white_space(text[text.len() - 1]));
    } else {
        let rest = blank.drop_first();
        assert forall|i: int| 0 <= i < rest.len() implies is_white_space(#[trigger] rest[i])
            && rest[i] != '\n' by {
            assert(rest[i] == blank[i + 1]);
        }
        assert(is_white_space(blank[0]));
        assert((blank + text)[0] == blank[0]);
        assert((blank + text).drop_first() =~= rest + text);
        lemma_trimmed_word(rest, text);
    }
}

/// The store paths of `origin` that `names` denote.
pub open spec fn denoted(origin: PathOriginView, names: Seq<Seq<char>>) -> Seq<StorePathView> {
    names.map_values(|name: Seq<char>| parsed_path(origin, name)->0)
}

proof fn lemma_references_are_read(
    url: Seq<char>,
    origin: PathOriginView,
    names: Seq<Seq<char>>,
)
    requires
        forall|i: int| 0 <= i < names.len() ==> parsed_path(origin, #[trigger] names[i]) is Some,
    ensures
        read_references(url, origin, names) == Ok::<_, ErrorView>(denoted(origin, names)),
    decreases names.len(),
{
    if names.len() == 0 {
        assert(denoted(origin, names) =~= Seq::empty());
    } else {
        let others = names.drop_last();
        assert forall|i: int| 0 <= i < others.len() implies parsed_path(
            origin,
            #[trigger] others[i],
        ) is Some by {
            assert(others[i] == names[i]);
        }
        lemma_references_are_read(url, origin, others);
        assert(parsed_path(origin, names[names.len() - 1]) is Some);
        assert(denoted(origin, names) =~= denoted(origin, others).push(
            parsed_path(origin, names.last())->0,
        ));
    }
}

proof fn lemma_store_path_line(
    url: Seq<char>,
    info: NarinfoView,
    blank: Seq<char>,
    path: Seq<char>,
)
    requires
        is_blank(blank),
        is_word(path),
        parsed_path(info.path.origin, path) is Some,
    ensures
        read_line(url, info, encode_utf8(store_path_line(blank, path))) == Ok::<_, ErrorView>(
            NarinfoView { path: parsed_path(info.path.origin, path)->0, ..info },
        ),
{
    let line = encode_utf8(store_path_line(blank, path));
    lemma_encode_concat("StorePath:"@, blank + path);
    assert(store_path_key().is_prefix_of(line)) by {
        assert(line.subrange(0, store_path_key().len() as int) =~= store_path_key());
    }
    law_keys_exclude_each_other(line);
    assert(store_path_value(line) =~= encode_utf8(blank + path));
    encode_utf8_valid_utf8(blank + path);
    encode_utf8_decode_utf8(blank + path);
    lemma_trimmed_word(blank, path);
}

proof fn lemma_references_line(url: Seq<char>, info: NarinfoView, names: Seq<Seq<char>>)
    requires
        forall|i: int|
            0 <= i < names.len() ==> is_word(#[trigger] names[i]) && parsed_path(
                info.path.origin.of_reference(),
                names[i],
            ) is Some,
    ensures
        read_line(url, info, encode_utf8(references_line(names))) == Ok::<_, ErrorView>(
            NarinfoView {
                references: denoted(info.path.origin.of_reference(), names),
                ..info
            },
        ),
{
    let line = encode_utf8(references_line(names));
    lemma_encode_concat("References:"@, spaced(names));
    assert(references_key().is_prefix_of(line)) by {
        assert(line.subrange(0, references_key().len() as int) =~= references_key());
    }
    assert(references_value(line) =~= encode_utf8(spaced(names)));
    encode_utf8_valid_utf8(spaced(names));
    encode_utf8_decode_utf8(spaced(names));
    law_words_are_read_back(names);
    lemma_references_are_read(url, info.path.origin.of_reference(), names);
}

proof fn lemma_written_lines(blank: Seq<char>, path: Seq<char>, names: Seq<Seq<char>>)
    requires
        is_blank(blank),
        is_word(path),
        forall|i: int| 0 <= i < names.len() ==> is_word(#[trigger] names[i]),
    ensures
        lines(written(blank, path, names)) == seq![
            encode_utf8(store_path_line(blank, path)),
            encode_utf8(references_line(names)),
            Seq::<u8>::empty(),
        ],
{
    reveal_strlit("StorePath:");
    reveal_strlit("References:");
    let first = store_path_line(blank, path);
    let second = references_line(names);
    assert forall|i: int| 0 <= i < first.len() implies first[i] != '\n' by {
        let k = i - "StorePath:"@.len();
        if k >= blank.len() {
            assert(first[i] == path[k - blank.len()]);
            assert(!is_white_space(path[k - blank.len()]));
        } else if k >= 0 {
            assert(first[i] == blank[k]);
        }
    }
    lemma_spaced_without_newline(names);
    assert forall|i: int| 0 <= i < second.len() implies second[i] != '\n' by {
        if i >= "References:"@.len() {
            assert(second[i] == spaced(names)[i - "References:"@.len()]);
            assert(spaced(names).contains(spaced(names)[i - "References:"@.len()]));
        }
    }
    lemma_encode_without_newline(first);
    lemma_encode_without_newline(second);
    let tail = encode_utf8(second).push(10u8);
    law_lines_are_read_back(encode_utf8(first), tail);
    law_lines_are_read_back(encode_utf8(second), Seq::empty());
    assert(tail + Seq::<u8>::empty() =~= tail);
    assert(lines(written(blank, path, names)) =~= seq![
        encode_utf8(first),
        encode_utf8(second),
        Seq::<u8>::empty(),
    ]);
}

/// What was written for a store path and its references is read without error, and gives that path
/// and these references, whatever path was asked for, and with or without space before the path.
pub proof fn law_written_narinfo_is_read_back(
    url: Seq<char>,
    asked: StorePathView,
    blank: Seq<char>,
    path: Seq<char>,
    names: Seq<Seq<char>>,
)
    requires
        is_blank(blank),
        is_word(path),
        parsed_path(asked.origin, path) is Some,
        forall|i: int|
            0 <= i < names.len() ==> is_word(#[trigger] names[i]) && parsed_path(
                asked.origin.of_reference(),
                names[i],
            ) is Some,
    ensures
        narinfo(url, asked, written(blank, path, names)) == Ok::<_, ErrorView>(
            NarinfoView {
                path: parsed_path(asked.origin, path)->0,
                references: denoted(asked.origin.of_reference(), names),
            },
        ),
{
    let start = NarinfoView { path: asked, references: Seq::empty() };
    let resolved = NarinfoView { path: parsed_path(asked.origin, path)->0, ..start };
    lemma_written_lines(blank, path, names);
    lemma_store_path_line(url, start, blank, path);
    lemma_references_line(url, resolved, names);
    law_keys_exclude_each_other(Seq::empty());
    let all = lines(written(blank, path, names));
    assert(all.drop_last().drop_last().drop_last() =~= Seq::empty());
    assert(all.drop_last().drop_last().last() == encode_utf8(store_path_line(blank, path)));
    assert(all.drop_last().last() == encode_utf8(references_line(names)));
    assert(all.last() == Seq::<u8>::empty());
    lemma_keys_are_not_empty();
    reveal_with_fuel(read_lines, 4);
}

proof fn lemma_keys_are_not_empty()
    ensures
        references_key().len() > 0,
        store_path_key().len() > 0,
{
    reveal_strlit("References:");
    reveal_strlit("StorePath:");
    is_ascii_chars_encode_utf8("References:"@);
    is_ascii_chars_encode_utf8("StorePath:"@);
}

} // verus!

//! Small pieces of text handling: white space, words, byte prefixes, decimal numbers and UTF-8.
use vstd::prelude::*;
use vstd::string::*;
use vstd::utf8::*;

verus! {

/// Whether `c` has Unicode's White_Space property.
pub open spec fn is_white_space(c: char) -> bool {
    ||| '\u{9}' <= c <= '\u{d}'
    ||| c == '\u{20}'
    ||| c == '\u{85}'
    ||| c == '\u{a0}'
    ||| c == '\u{1680}'
    ||| '\u{2000}' <= c <= '\u{200a}'
    ||| c == '\u{2028}'
    ||| c == '\u{2029}'
    ||| c == '\u{202f}'
    ||| c == '\u{205f}'
    ||| c == '\u{3000}'
}

/// Whether `c` is white space.
pub fn is_whitespace(c: char) -> (white: bool)
    ensures
        white == is_white_space(c),
{
    ('\u{9}' <= c && c <= '\u{d}') || c == '\u{20}' || c == '\u{85}' || c == '\u{a0}' || c
        == '\u{1680}' || ('\u{2000}' <= c && c <= '\u{200a}') || c == '\u{2028}' || c == '\u{2029}'
        || c == '\u{202f}' || c == '\u{205f}' || c == '\u{3000}'
}

/// The number of characters before the first white space of `text`.
pub open spec fn word_len(text: Seq<char>) -> nat
    decreases text.len(),
{
    if text.len() == 0 || is_white_space(text[0]) {
        0
    } else {
        1 + word_len(text.drop_first())
    }
}

proof fn lemma_word_len_bound(text: Seq<char>)
    ensures
        word_len(text) <= text.len(),
    decreases text.len(),
{
    if text.len() != 0 && !is_white_space(text[0]) {
        lemma_word_len_bound(text.drop_first());
    }
}

/// The words of `text`: its longest runs of characters that are not white space, in order.
pub open spec fn words(text: Seq<char>) -> Seq<Seq<char>>
    decreases text.len(),
    via words_decreases
{
    if text.len() == 0 {
        Seq::empty()
    } else if is_white_space(text[0]) {
        words(text.drop_first())
    } else {
        seq![text.take(word_len(text) as int)] + words(text.skip(word_len(text) as int))
    }
}

#[via_fn]
proof fn words_decreases(text: Seq<char>) {
    if text.len() != 0 {
        lemma_word_len_bound(text);
    }
}

/// `text` without the white space at its start.
pub open spec fn trim_start(text: Seq<char>) -> Seq<char>
    decreases text.len(),
{
    if text.len() != 0 && is_white_space(text[0]) {
        trim_start(text.drop_first())
    } else {
        text
    }
}

/// `text` without the white space at its end.
pub open spec fn trim_end(text: Seq<char>) -> Seq<char>
    decreases text.len(),
{
    if text.len() != 0 && is_white_space(text.last()) {
        trim_end(text.drop_last())
    } else {
        text
    }
}

/// `text` without the white space at either end.
pub open spec fn trimmed(text: Seq<char>) -> Seq<char> {
    trim_end(trim_start(text))
}

/// The characters of each of `strings`.
pub open spec fn texts(strings: Seq<String>) -> Seq<Seq<char>> {
    strings.map_values(|s: String| s@)
}

/// The characters of `text`, in order.
pub(crate) fn chars_of(text: &str) -> (chars: Vec<char>)
    ensures
        chars@ == text@,
{
    let mut chars: Vec<char> = Vec::new();
    for c in it: text.chars()
        invariant
            it.seq() == text@,
            chars@ == text@.take(it.index() as int),
    {
        chars.push(c);
    }
    chars
}

/// The words of `text` (see [`words`]).
pub fn split_whitespace(text: &str) -> (found: Vec<String>)
    ensures
        texts(found@) == words(text@),
{
    let chars = chars_of(text);
    let mut found: Vec<String> = Vec::new();
    let mut i: usize = 0;
    assert(text@.skip(0) == text@);
    while i < chars.len()
        invariant
            chars@ == text@,
            i <= chars.len(),
            words(text@) == texts(found@) + words(text@.skip(i as int)),
        decreases chars.len() - i,
    {
        assert(text@.skip(i as int).drop_first() == text@.skip(i + 1));
        if is_whitespace(chars[i]) {
            i += 1;
        } else {
            let mut j: usize = i;
            while j < chars.len() && !is_whitespace(chars[j])
                invariant
                    chars@ == text@,
                    i <= j <= chars.len(),
                    word_len(text@.skip(i as int)) == (j - i) + word_len(text@.skip(j as int)),
                decreases chars.len() - j,
            {
                assert(text@.skip(j as int).drop_first() == text@.skip(j + 1));
                j += 1;
            }
            let ghost before = texts(found@);
            let ghost rest = text@.skip(i as int);
            let word = text.substring_char(i, j).to_owned();
            found.push(word);
            proof {
                assert(word_len(rest) == j - i);
                assert(rest.take(j - i) == word@);
                assert(rest.skip(j - i) == text@.skip(j as int));
                assert(texts(found@) == before.push(word@));
                assert(before + (seq![word@] + words(text@.skip(j as int))) == before.push(word@)
                    + words(text@.skip(j as int)));
            }
            i = j;
        }
    }
    assert(text@.skip(i as int) == Seq::<char>::empty());
    found
}

proof fn lemma_trim_end_take(text: Seq<char>, n: int)
    requires
        0 <= n <= text.len(),
        forall|k: int| n <= k < text.len() ==> is_white_space(#[trigger] text[k]),
    ensures
        trim_end(text) == trim_end(text.take(n)),
    decreases text.len() - n,
{
    if n == text.len() {
        assert(text.take(n) == text);
    } else {
        assert(is_white_space(text[text.len() - 1]));
        assert(text.drop_last().take(n) == text.take(n));
        lemma_trim_end_take(text.drop_last(), n);
    }
}

/// `text` without the white space at either end.
pub fn trim(text: &str) -> (inner: &str)
    ensures
        inner@ == trimmed(text@),
{
    let chars = chars_of(text);
    let mut start: usize = 0;
    assert(text@.skip(0) == text@);
    while start < chars.len() && is_whitespace(chars[start])
        invariant
            chars@ == text@,
            start <= chars.len(),
            trim_start(text@) == trim_start(text@.skip(start as int)),
        decreases chars.len() - start,
    {
        assert(text@.skip(start as int).drop_first() == text@.skip(start + 1));
        start += 1;
    }
    let ghost rest = text@.skip(start as int);
    let mut end: usize = chars.len();
    while start < end && is_whitespace(chars[end - 1])
        invariant
            chars@ == text@,
            start <= end <= chars.len(),
            rest == text@.skip(start as int),
            forall|k: int| end - start <= k < rest.len() ==> is_white_space(#[trigger] rest[k]),
        decreases end,
    {
        end -= 1;
    }
    proof {
        lemma_trim_end_take(rest, end - start);
        assert(rest.take(end - start) == text@.subrange(start as int, end as int));
    }
    text.substring_char(start, end)
}

/// Whether `left` and `right` hold the same bytes.
pub fn bytes_eq(left: &[u8], right: &[u8]) -> (same: bool)
    ensures
        same == (left@ == right@),
{
    if left.len() != right.len() {
        return false;
    }
    for i in 0..left.len()
        invariant
            left@.len() == right@.len(),
            forall|k: int| 0 <= k < i ==> left@[k] == right@[k],
    {
        if left[i] != right[i] {
            return false;
        }
    }
    assert(left@ =~= right@);
    true
}

/// Whether `left` and `right` hold the same characters.
pub fn str_eq(left: &str, right: &str) -> (same: bool)
    ensures
        same == (left@ == right@),
{
    proof {
        encode_utf8_decode_utf8(left@);
        encode_utf8_decode_utf8(right@);
    }
    bytes_eq(left.as_bytes(), right.as_bytes())
}

/// Whether `bytes` begins with `prefix`.
pub fn starts_with(bytes: &[u8], prefix: &[u8]) -> (begins: bool)
    ensures
        begins == prefix@.is_prefix_of(bytes@),
{
    if prefix.len() > bytes.len() {
        return false;
    }
    for i in 0..prefix.len()
        invariant
            prefix@.len() <= bytes@.len(),
            forall|k: int| 0 <= k < i ==> prefix@[k] == bytes@[k],
    {
        if prefix[i] != bytes[i] {
            assert(prefix@[i as int] != bytes@.subrange(0, prefix@.len() as int)[i as int]);
            return false;
        }
    }
    assert(prefix@ =~= bytes@.subrange(0, prefix@.len() as int));
    true
}

/// The decimal digit for `n`.
pub open spec fn digit(n: nat) -> char
    recommends
        n < 10,
{
    (48 + n) as char
}

/// `n` written in decimal, without leading zeros.
pub open spec fn decimal(n: nat) -> Seq<char>
    decreases n,
{
    if n < 10 {
        seq![digit(n)]
    } else {
        decimal(n / 10).push(digit(n % 10))
    }
}

/// `n` written in decimal with at least three digits.
pub open spec fn decimal_padded(n: nat) -> Seq<char> {
    if n < 10 {
        seq!['0', '0'] + decimal(n)
    } else if n < 100 {
        seq!['0'] + decimal(n)
    } else {
        decimal(n)
    }
}

fn push_digit(out: &mut String, n: u8)
    requires
        n < 10,
    ensures
        final(out)@ == old(out)@.push(digit(n as nat)),
{
    let ghost before = out@;
    let text: &str = match n {
        0 => "0",
        1 => "1",
        2 => "2",
        3 => "3",
        4 => "4",
        5 => "5",
        6 => "6",
        7 => "7",
        8 => "8",
        _ => "9",
    };
    proof {
        reveal_strlit("0");
        reveal_strlit("1");
        reveal_strlit("2");
        reveal_strlit("3");
        reveal_strlit("4");
        reveal_strlit("5");
        reveal_strlit("6");
        reveal_strlit("7");
        reveal_strlit("8");
        reveal_strlit("9");
        assert(text@ =~= seq![digit(n as nat)]);
    }
    out.append(text);
    assert(out@ =~= before.push(digit(n as nat)));
}

/// Appends `n` in decimal.
pub fn push_decimal(out: &mut String, n: u64)
    ensures
        final(out)@ == old(out)@ + decimal(n as nat),
    decreases n,
{
    let ghost before = out@;
    if n >= 10 {
        push_decimal(out, n / 10);
    }
    push_digit(out, (n % 10) as u8);
    assert(out@ =~= before + decimal(n as nat));
}

/// Appends `n` in decimal, filled up with zeros to at least three digits.
pub fn push_decimal_padded(out: &mut String, n: u64)
    ensures
        final(out)@ == old(out)@ + decimal_padded(n as nat),
{
    let ghost before = out@;
    if n < 100 {
        push_digit(out, 0);
    }
    if n < 10 {
        push_digit(out, 0);
    }
    push_decimal(out, n);
    assert(out@ =~= before + decimal_padded(n as nat));
}

/// Why a byte sequence is not UTF-8.
#[derive(Debug, PartialEq, Eq)]
pub struct Utf8Failure {
    /// The length of the longest valid prefix.
    pub valid_up_to: usize,
    /// A description of the problem.
    pub message: String,
}

/// Whether the first `n` bytes, and no longer prefix, are valid UTF-8.
pub open spec fn is_longest_valid_prefix(bytes: Seq<u8>, n: int) -> bool {
    &&& 0 <= n <= bytes.len()
    &&& valid_utf8(bytes.subrange(0, n))
    &&& forall|m: int| n < m <= bytes.len() ==> !valid_utf8(#[trigger] bytes.subrange(0, m))
}

/// The length of the longest prefix of `bytes` that is valid UTF-8.
pub open spec fn valid_prefix_len(bytes: Seq<u8>) -> int {
    choose|n: int| is_longest_valid_prefix(bytes, n)
}

/// There is only one longest valid prefix.
pub proof fn lemma_valid_prefix_len(bytes: Seq<u8>, n: int)
    requires
        is_longest_valid_prefix(bytes, n),
    ensures
        valid_prefix_len(bytes) == n,
{
    let m = valid_prefix_len(bytes);
    assert(is_longest_valid_prefix(bytes, m));
    assert(valid_utf8(bytes.subrange(0, n)));
    assert(valid_utf8(bytes.subrange(0, m)));
}

/// What [`std::str::Utf8Error`] prints for the error that decoding `bytes` gives.
pub uninterp spec fn utf8_error_message(bytes: Seq<u8>) -> Seq<char>;

/// Calls [`std::str::from_utf8`]. It succeeds exactly on valid UTF-8 and then returns the text that
/// the bytes encode; its error tells the longest valid prefix and prints a message that depends on
/// the bytes alone.
#[verifier::external_body]
pub(crate) fn from_utf8(bytes: &[u8]) -> (result: Result<&str, Utf8Failure>)
    ensures
        result is Ok <==> valid_utf8(bytes@),
        result matches Ok(text) ==> text.spec_bytes() == bytes@,
        result matches Err(failure) ==> is_longest_valid_prefix(bytes@, failure.valid_up_to as int)
            && failure.message@ == utf8_error_message(bytes@),
{
    std::str::from_utf8(bytes).map_err(
        |e| Utf8Failure { valid_up_to: e.valid_up_to(), message: e.to_string() },
    )
}

/// What [`String::from_utf8_lossy`] makes of `bytes`.
pub uninterp spec fn lossy_text(bytes: Seq<u8>) -> Seq<char>;

/// Calls [`String::from_utf8_lossy`]: valid UTF-8 is decoded as it is, and everything else is
/// decoded with replacement characters in a way that depends on the bytes alone.
#[verifier::external_body]
pub(crate) fn from_utf8_lossy(bytes: &[u8]) -> (text: String)
    ensures
        text@ == lossy_text(bytes@),
        valid_utf8(bytes@) ==> text@ == decode_utf8(bytes@),
{
    String::from_utf8_lossy(bytes).into_owned()
}

proof fn lemma_word_ends(before: Seq<char>, space: char, after: Seq<char>)
    requires
        is_white_space(space),
    ensures
        word_len(before.push(space) + after) == word_len(before),
    decreases before.len(),
{
    let text = before.push(space) + after;
    if before.len() == 0 {
        assert(text[0] == space);
    } else {
        assert(text[0] == before[0]);
        if !is_white_space(before[0]) {
            assert(text.drop_first() =~= before.drop_first().push(space) + after);
            lemma_word_ends(before.drop_first(), space, after);
        }
    }
}

/// White space separates words: the words of a text are those before any white space in it and those
/// after it. No text has no words, and a text without white space is one word.
pub proof fn law_white_space_separates_words(before: Seq<char>, space: char, after: Seq<char>)
    requires
        is_white_space(space),
    ensures
        words(before.push(space) + after) == words(before) + words(after),
        words(Seq::empty()) == Seq::<Seq<char>>::empty(),
        before.len() > 0 && (forall|i: int|
            0 <= i < before.len() ==> !is_white_space(#[trigger] before[i])) ==> words(before)
            == seq![before],
    decreases before.len(),
{
    let text = before.push(space) + after;
    if before.len() == 0 {
        assert(text[0] == space);
        assert(text.drop_first() =~= after);
        assert(words(before) =~= Seq::empty());
        assert(words(before) + words(after) =~= words(after));
    } else if is_white_space(before[0]) {
        assert(text[0] == before[0]);
        assert(text.drop_first() =~= before.drop_first().push(space) + after);
        law_white_space_separates_words(before.drop_first(), space, after);
    } else {
        let n = word_len(before) as int;
        lemma_word_len_bound(before);
        lemma_word_ends(before, space, after);
        assert(text[0] == before[0]);
        assert(text.take(n) =~= before.take(n));
        assert(text.skip(n) =~= before.skip(n).push(space) + after);
        assert(n >= 1);
        law_white_space_separates_words(before.skip(n), space, after);
        assert(words(text) =~= words(before) + words(after));
        if forall|i: int| 0 <= i < before.len() ==> !is_white_space(#[trigger] before[i]) {
            lemma_whole_word(before);
            assert(before.take(n) =~= before);
            assert(before.skip(n) =~= Seq::empty());
            assert(words(before) =~= seq![before]);
        }
    }
}

proof fn lemma_whole_word(text: Seq<char>)
    requires
        forall|i: int| 0 <= i < text.len() ==> !is_white_space(#[trigger] text[i]),
    ensures
        word_len(text) == text.len(),
    decreases text.len(),
{
    if text.len() != 0 {
        let rest = text.drop_first();
        assert forall|i: int| 0 <= i < rest.len() implies !is_white_space(#[trigger] rest[i]) by {
            assert(rest[i] == text[i + 1]);
        }
        assert(!is_white_space(text[0]));
        lemma_whole_word(rest);
    }
}

proof fn lemma_trim_start_skips(left: Seq<char>, rest: Seq<char>)
    requires
        forall|i: int| 0 <= i < left.len() ==> is_white_space(#[trigger] left[i]),
    ensures
        trim_start(left + rest) == trim_start(rest),
    decreases left.len(),
{
    if left.len() == 0 {
        assert(left + rest =~= rest);
    } else {
        let others = left.drop_first();
        assert forall|i: int| 0 <= i < others.len() implies is_white_space(#[trigger] others[i]) by {
            assert(others[i] == left[i + 1]);
        }
        assert((left + rest)[0] == left[0]);
        assert(is_white_space(left[0]));
        assert((left + rest).drop_first() =~= others + rest);
        lemma_trim_start_skips(others, rest);
    }
}

/// Trimming takes away all white space at both ends, and nothing else.
pub proof fn law_trimming_takes_white_space_only(
    left: Seq<char>,
    inner: Seq<char>,
    right: Seq<char>,
)
    requires
        forall|i: int| 0 <= i < left.len() ==> is_white_space(#[trigger] left[i]),
        forall|i: int| 0 <= i < right.len() ==> is_white_space(#[trigger] right[i]),
        inner.len() > 0 ==> !is_white_space(inner[0]) && !is_white_space(inner.last()),
    ensures
        trimmed(left + inner + right) == inner,
{
    if inner.len() == 0 {
        let all = left + right;
        assert(left + inner + right =~= all + Seq::<char>::empty());
        assert forall|i: int| 0 <= i < all.len() implies is_white_space(#[trigger] all[i]) by {
            if i < left.len() {
                assert(all[i] == left[i]);
            } else {
                assert(all[i] == right[i - left.len()]);
            }
        }
        lemma_trim_start_skips(all, Seq::empty());
        assert(trimmed(left + inner + right) =~= inner);
    } else {
        let rest = inner + right;
        assert(left + inner + right =~= left + rest);
        lemma_trim_start_skips(left, rest);
        assert(rest[0] == inner[0]);
        assert forall|k: int| inner.len() <= k < rest.len() implies is_white_space(
            #[trigger] rest[k],
        ) by {
            assert(rest[k] == right[k - inner.len()]);
        }
        lemma_trim_end_take(rest, inner.len() as int);
        assert(rest.take(inner.len() as int) =~= inner);
    }
}

/// The number that decimal digits stand for.
pub open spec fn number(digits: Seq<char>) -> nat
    decreases digits.len(),
{
    if digits.len() == 0 {
        0
    } else {
        (10 * number(digits.drop_last()) + (digits.last() as int - 48)) as nat
    }
}

/// A number that is written in decimal can be read back. There is nothing but digits, and no zero
/// comes first, except for zero itself.
pub proof fn law_decimal_is_read_back(n: nat)
    ensures
        number(decimal(n)) == n,
        decimal(n).len() > 0,
        forall|i: int| 0 <= i < decimal(n).len() ==> '0' <= #[trigger] decimal(n)[i] <= '9',
        n > 0 ==> decimal(n)[0] != '0',
        n < 10 ==> decimal(n).len() == 1,
        10 <= n < 100 ==> decimal(n).len() == 2,
        100 <= n < 1000 ==> decimal(n).len() == 3,
        n >= 1000 ==> decimal(n).len() > 3,
    decreases n,
{
    let digits = decimal(n);
    if n < 10 {
        assert(digits.drop_last() =~= Seq::empty());
        assert(number(digits.drop_last()) == 0);
        assert(digits.last() == digit(n));
    } else {
        law_decimal_is_read_back(n / 10);
        assert(digits.drop_last() =~= decimal(n / 10));
        assert(digits.last() == digit(n % 10));
        assert(digits[0] == decimal(n / 10)[0]);
        assert forall|i: int| 0 <= i < digits.len() implies '0' <= #[trigger] digits[i] <= '9' by {
            if i < decimal(n / 10).len() {
                assert(digits[i] == decimal(n / 10)[i]);
            }
        }
    }
}

/// Filling up with zeros changes nothing about the number, and leaves at least three digits, and no
/// more than that below a thousand.
pub proof fn law_padding_keeps_the_number(n: nat)
    ensures
        number(decimal_padded(n)) == n,
        decimal_padded(n).len() >= 3,
        n < 1000 ==> decimal_padded(n).len() == 3,
        n >= 100 ==> decimal_padded(n) == decimal(n),
{
    law_decimal_is_read_back(n);
    let digits = decimal(n);
    if n < 100 {
        lemma_leading_zero(digits);
        lemma_leading_zero(seq!['0'] + digits);
        assert(seq!['0', '0'] + digits =~= seq!['0'] + (seq!['0'] + digits));
    }
}

proof fn lemma_leading_zero(digits: Seq<char>)
    ensures
        number(seq!['0'] + digits) == number(digits),
    decreases digits.len(),
{
    let longer = seq!['0'] + digits;
    if digits.len() == 0 {
        assert(longer.drop_last() =~= Seq::empty());
        assert(number(longer.drop_last()) == 0);
        assert(longer.last() == '0');
    } else {
        assert(longer.drop_last() =~= seq!['0'] + digits.drop_last());
        assert(longer.last() == digits.last());
        lemma_leading_zero(digits.drop_last());
    }
}

/// Taking the characters of strings keeps every string, in order.
pub proof fn law_texts_are_kept(strings: Seq<String>)
    ensures
        texts(strings).len() == strings.len(),
        forall|i: int| 0 <= i < strings.len() ==> #[trigger] texts(strings)[i] == strings[i]@,
{
}

/// Bytes that are not UTF-8 have a longest prefix that is, and it is not all of them.
pub proof fn law_a_longest_valid_prefix_exists(bytes: Seq<u8>)
    ensures
        valid_prefix_len(bytes) <= bytes.len(),
        valid_utf8(bytes.take(valid_prefix_len(bytes))),
        forall|m: int|
            valid_prefix_len(bytes) < m <= bytes.len() ==> !valid_utf8(#[trigger] bytes.take(m)),
        !valid_utf8(bytes) ==> 0 <= valid_prefix_len(bytes) < bytes.len(),
{
    lemma_longest_valid_prefix(bytes, bytes.len() as int);
    let n = valid_prefix_len(bytes);
    assert(is_longest_valid_prefix(bytes, n));
    assert(bytes.take(n) =~= bytes.subrange(0, n));
    assert forall|m: int| n < m <= bytes.len() implies !valid_utf8(#[trigger] bytes.take(m)) by {
        assert(bytes.take(m) =~= bytes.subrange(0, m));
    }
    assert(bytes.take(bytes.len() as int) =~= bytes);
}

proof fn lemma_longest_valid_prefix(bytes: Seq<u8>, n: int)
    requires
        0 <= n <= bytes.len(),
        forall|m: int| n < m <= bytes.len() ==> !valid_utf8(#[trigger] bytes.subrange(0, m)),
    ensures
        exists|k: int| is_longest_valid_prefix(bytes, k),
    decreases n,
{
    if valid_utf8(bytes.subrange(0, n)) {
        assert(is_longest_valid_prefix(bytes, n));
    } else {
        if n == 0 {
            assert(bytes.subrange(0, 0) =~= Seq::empty());
        }
        lemma_longest_valid_prefix(bytes, n - 1);
    }
}

} // verus!

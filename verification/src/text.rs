//! Text as it arrives in commands: decoding, words, prefixes and brackets.

use std::str::Utf8Error;

use vstd::prelude::*;
use vstd::string::*;
use vstd::utf8::*;

verus! {

/// The characters that Unicode gives the `White_Space` property.
pub open spec fn is_white_space(c: char) -> bool {
    ||| '\u{9}' <= c <= '\u{d}'
    ||| c == ' '
    ||| c == '\u{85}'
    ||| c == '\u{a0}'
    ||| c == '\u{1680}'
    ||| '\u{2000}' <= c <= '\u{200a}'
    ||| c == '\u{2028}'
    ||| c == '\u{2029}'
    ||| c == '\u{202f}'
    ||| c == '\u{205f}'
    ||| c == '\u{3000}'
}

/// `char::is_whitespace` says whether a character has the `White_Space` property.
pub assume_specification[ char::is_whitespace ](c: char) -> (white: bool)
    ensures
        white == is_white_space(c),
;

#[verifier::external_type_specification]
#[verifier::external_body]
pub struct ExUtf8Error(Utf8Error);

/// `std::str::from_utf8` accepts exactly the byte sequences that are valid UTF-8, and gives the
/// text that they encode. What its error says of the place is not stated.
pub assume_specification[ std::str::from_utf8 ](v: &[u8]) -> (decoded: Result<&str, Utf8Error>)
    ensures
        decoded is Ok <==> valid_utf8(v@),
        decoded matches Ok(text) ==> text@ == decode_utf8(v@),
;

/// How many characters stand before the first white space.
pub open spec fn word_len(text: Seq<char>) -> nat
    decreases text.len(),
{
    if text.len() == 0 || is_white_space(text[0]) {
        0
    } else {
        1 + word_len(text.skip(1))
    }
}

/// The words of a text: its longest pieces without white space, in order.
pub open spec fn words(text: Seq<char>) -> Seq<Seq<char>>
    decreases text.len(),
{
    if text.len() == 0 {
        Seq::empty()
    } else if is_white_space(text[0]) {
        words(text.skip(1))
    } else {
        proof {
            lemma_word_len_bound(text);
        }
        seq![text.take(word_len(text) as int)] + words(text.skip(word_len(text) as int))
    }
}

/// A word is no longer than the text it stands in.
pub proof fn lemma_word_len_bound(text: Seq<char>)
    ensures
        word_len(text) <= text.len(),
    decreases text.len(),
{
    if text.len() > 0 && !is_white_space(text[0]) {
        lemma_word_len_bound(text.skip(1));
    }
}

/// The word at an index, if there are that many.
pub open spec fn word_at(text: Seq<char>, index: int) -> Option<Seq<char>> {
    if 0 <= index < words(text).len() {
        Some(words(text)[index])
    } else {
        None
    }
}

/// What an optional `String` holds.
pub open spec fn text_of(text: Option<String>) -> Option<Seq<char>> {
    match text {
        Some(t) => Some(t@),
        None => None,
    }
}

/// The characters of a text, for access by index.
pub fn chars_of(text: &str) -> (chars: Vec<char>)
    ensures
        chars@ == text@,
{
    let mut chars: Vec<char> = Vec::new();
    for c in it: text.chars()
        invariant
            it.seq() == text@,
            chars@ == text@.take(it.index()),
    {
        chars.push(c);
    }
    chars
}

/// Whether two texts are the same.
pub fn same_text(a: &str, b: &str) -> (same: bool)
    ensures
        same == (a@ == b@),
{
    let a_chars = chars_of(a);
    let b_chars = chars_of(b);
    if a_chars.len() != b_chars.len() {
        return false;
    }
    let mut i: usize = 0;
    while i < a_chars.len()
        invariant
            i <= a_chars.len(),
            a_chars.len() == b_chars.len(),
            a_chars@ == a@,
            b_chars@ == b@,
            a@.take(i as int) == b@.take(i as int),
        decreases a_chars.len() - i,
    {
        if a_chars[i] != b_chars[i] {
            return false;
        }
        assert(a@.take(i + 1) == a@.take(i as int).push(a@[i as int]));
        assert(b@.take(i + 1) == b@.take(i as int).push(b@[i as int]));
        i += 1;
    }
    assert(a@.take(i as int) == a@);
    assert(b@.take(i as int) == b@);
    true
}

/// The bounds of the first word at or behind `from`.
fn next_word(chars: &Vec<char>, from: usize) -> (bounds: Option<(usize, usize)>)
    requires
        from <= chars.len(),
    ensures
        match bounds {
            Some((start, end)) => from <= start < end <= chars.len() && words(
                chars@.skip(from as int),
            ) == seq![chars@.subrange(start as int, end as int)] + words(chars@.skip(end as int)),
            None => words(chars@.skip(from as int)) == Seq::<Seq<char>>::empty(),
        },
{
    let mut start: usize = from;
    while start < chars.len() && chars[start].is_whitespace()
        invariant
            from <= start <= chars.len(),
            words(chars@.skip(from as int)) == words(chars@.skip(start as int)),
        decreases chars.len() - start,
    {
        assert(chars@.skip(start as int).skip(1) == chars@.skip(start + 1));
        start += 1;
    }
    if start == chars.len() {
        return None;
    }
    let ghost rest = chars@.skip(start as int);
    let mut end: usize = start + 1;
    assert(rest.skip(1) == chars@.skip(end as int));
    while end < chars.len() && !chars[end].is_whitespace()
        invariant
            start < end <= chars.len(),
            rest == chars@.skip(start as int),
            word_len(rest.skip(1)) == (end - start - 1) + word_len(chars@.skip(end as int)),
        decreases chars.len() - end,
    {
        assert(chars@.skip(end as int).skip(1) == chars@.skip(end + 1));
        end += 1;
    }
    assert(word_len(chars@.skip(end as int)) == 0);
    assert(rest.take(end - start) == chars@.subrange(start as int, end as int));
    assert(rest.skip(end - start) == chars@.skip(end as int));
    Some((start, end))
}

/// The first two words of a text.
pub fn first_words(text: &str) -> (found: (Option<String>, Option<String>))
    ensures
        text_of(found.0) == word_at(text@, 0),
        text_of(found.1) == word_at(text@, 1),
{
    let chars = chars_of(text);
    assert(chars@.skip(0) == chars@);
    match next_word(&chars, 0) {
        None => (None, None),
        Some((start, end)) => {
            let first = text.substring_char(start, end).to_owned();
            match next_word(&chars, end) {
                None => {
                    assert(words(text@) == seq![first@]);
                    (Some(first), None)
                },
                Some((start2, end2)) => {
                    let second = text.substring_char(start2, end2).to_owned();
                    assert(words(text@)[0] == first@);
                    assert(words(text@)[1] == second@);
                    (Some(first), Some(second))
                },
            }
        },
    }
}

/// What stands behind a prefix, where the text has that prefix.
pub open spec fn behind(text: Seq<char>, prefix: Seq<char>) -> Option<Seq<char>> {
    if prefix.is_prefix_of(text) {
        Some(text.skip(prefix.len() as int))
    } else {
        None
    }
}

/// What stands behind `prefix` in `text`.
pub fn strip_prefix(text: &str, prefix: &str) -> (rest: Option<String>)
    ensures
        text_of(rest) == behind(text@, prefix@),
{
    let chars = chars_of(text);
    let prefix_len: usize = prefix.unicode_len();
    if chars.len() < prefix_len {
        return None;
    }
    let start = text.substring_char(0, prefix_len);
    if same_text(start, prefix) {
        let rest = text.substring_char(prefix_len, chars.len()).to_owned();
        assert(prefix@.is_prefix_of(text@));
        Some(rest)
    } else {
        assert(!prefix@.is_prefix_of(text@)) by {
            if prefix@.is_prefix_of(text@) {
                assert(text@.subrange(0, prefix_len as int) == prefix@);
            }
        }
        None
    }
}

/// The brackets that may stand round an address.
pub open spec fn is_bracket(c: char) -> bool {
    c == '<' || c == '>'
}

/// A text without the brackets it starts with.
pub open spec fn without_leading_brackets(text: Seq<char>) -> Seq<char>
    decreases text.len(),
{
    if text.len() > 0 && is_bracket(text[0]) {
        without_leading_brackets(text.skip(1))
    } else {
        text
    }
}

/// A text without the brackets it ends with.
pub open spec fn without_trailing_brackets(text: Seq<char>) -> Seq<char>
    decreases text.len(),
{
    if text.len() > 0 && is_bracket(text.last()) {
        without_trailing_brackets(text.drop_last())
    } else {
        text
    }
}

/// A text without the brackets on either side.
pub open spec fn without_brackets(text: Seq<char>) -> Seq<char> {
    without_trailing_brackets(without_leading_brackets(text))
}

/// `text` without the brackets on either side.
pub fn trim_brackets(text: &str) -> (trimmed: String)
    ensures
        trimmed@ == without_brackets(text@),
{
    let chars = chars_of(text);
    let mut start: usize = 0;
    assert(text@.skip(0) == text@);
    while start < chars.len() && (chars[start] == '<' || chars[start] == '>')
        invariant
            start <= chars.len(),
            chars@ == text@,
            without_leading_brackets(text@) == without_leading_brackets(text@.skip(start as int)),
        decreases chars.len() - start,
    {
        assert(text@.skip(start as int).skip(1) == text@.skip(start + 1));
        start += 1;
    }
    let ghost led = text@.skip(start as int);
    assert(without_leading_brackets(text@) == led);
    let mut end: usize = chars.len();
    assert(text@.subrange(start as int, end as int) == led);
    while start < end && (chars[end - 1] == '<' || chars[end - 1] == '>')
        invariant
            start <= end <= chars.len(),
            chars@ == text@,
            without_trailing_brackets(led) == without_trailing_brackets(
                text@.subrange(start as int, end as int),
            ),
        decreases end - start,
    {
        assert(text@.subrange(start as int, end as int).drop_last() == text@.subrange(
            start as int,
            end - 1,
        ));
        end -= 1;
    }
    text.substring_char(start, end).to_owned()
}

/// Whether a byte sequence ends with the bytes of a text.
pub fn ends_with(bytes: &Vec<u8>, end: &str) -> (yes: bool)
    ensures
        yes == end.spec_bytes().is_suffix_of(bytes@),
{
    let suffix = end.as_bytes();
    if bytes.len() < suffix.len() {
        return false;
    }
    let from: usize = bytes.len() - suffix.len();
    let mut i: usize = 0;
    while i < suffix.len()
        invariant
            i <= suffix.len(),
            from + suffix.len() == bytes.len(),
            suffix@ == end.spec_bytes(),
            forall|k: int| 0 <= k < i ==> bytes@[from + k] == #[trigger] suffix@[k],
        decreases suffix.len() - i,
    {
        if bytes[from + i] != suffix[i] {
            let ghost end = bytes@.subrange(from as int, bytes@.len() as int);
            assert(end[i as int] != suffix@[i as int]);
            return false;
        }
        i += 1;
    }
    assert(suffix@ == bytes@.subrange(from as int, bytes@.len() as int));
    true
}

} // verus!

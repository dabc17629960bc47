//! Splitting attribute values into whitespace-separated words.

use vstd::prelude::*;

verus! {

/// The ASCII whitespace characters: space, tab, line feed, form feed and
/// carriage return.
pub open spec fn is_ascii_space(c: char) -> bool {
    c == ' ' || c == '\t' || c == '\n' || c == '\x0C' || c == '\r'
}

/// The words that remain in `rest` when the characters read so far since the
/// last whitespace are `word`: whitespace ends the word at hand, if any, and
/// any other character extends it.
pub open spec fn words_after(rest: Seq<char>, word: Seq<char>) -> Seq<Seq<char>>
    decreases rest.len(),
{
    if rest.len() == 0 {
        if word.len() > 0 {
            seq![word]
        } else {
            Seq::empty()
        }
    } else if is_ascii_space(rest[0]) {
        if word.len() > 0 {
            seq![word] + words_after(rest.drop_first(), Seq::empty())
        } else {
            words_after(rest.drop_first(), Seq::empty())
        }
    } else {
        words_after(rest.drop_first(), word.push(rest[0]))
    }
}

/// The maximal runs of characters other than ASCII whitespace in `text`, in
/// the order in which they occur.
pub open spec fn ascii_words(text: Seq<char>) -> Seq<Seq<char>> {
    words_after(text, Seq::empty())
}

/// The views of a list of string slices.
pub open spec fn views(words: Seq<&str>) -> Seq<Seq<char>> {
    Seq::new(words.len(), |i: int| words[i]@)
}

/// Whether `c` is ASCII whitespace.
pub fn is_space(c: char) -> (b: bool)
    ensures
        b == is_ascii_space(c),
{
    c == ' ' || c == '\t' || c == '\n' || c == '\x0C' || c == '\r'
}

/// Calls `str::eq`: whether two string slices hold the same characters.
#[verifier::external_body]
pub(crate) fn same_text(a: &str, b: &str) -> (same: bool)
    ensures
        same == (a@ == b@),
{
    a == b
}

/// Splits `text` at ASCII whitespace. The words are slices of `text`, in
/// order, and none is empty.
pub fn split_ascii_whitespace<'a>(text: &'a str) -> (words: Vec<&'a str>)
    ensures
        views(words@) == ascii_words(text@),
{
    let mut words: Vec<&'a str> = Vec::new();
    let len = text.unicode_len();
    let mut start: usize = 0;
    let mut i: usize = 0;
    proof {
        assert(text@.skip(0) == text@);
        assert(text@.subrange(0, 0) == Seq::<char>::empty());
        assert(views(words@) == Seq::<Seq<char>>::empty());
    }
    for c in it: text.chars()
        invariant
            it.seq() == text@,
            i == it.index(),
            len == text@.len(),
            start <= i <= len,
            ascii_words(text@) == views(words@) + words_after(
                text@.skip(i as int),
                text@.subrange(start as int, i as int),
            ),
    {
        let ghost rest = text@.skip(i as int);
        let ghost word = text@.subrange(start as int, i as int);
        assert(rest[0] == c);
        assert(rest.drop_first() == text@.skip(i + 1));
        if is_space(c) {
            if start < i {
                let ghost before = views(words@);
                words.push(text.substring_char(start, i));
                assert(views(words@) == before + seq![word]);
            }
            start = i + 1;
            assert(text@.subrange(start as int, i + 1) == Seq::<char>::empty());
        } else {
            assert(word.push(c) == text@.subrange(start as int, i + 1));
        }
        i += 1;
    }
    assert(text@.skip(i as int).len() == 0);
    if start < i {
        let ghost before = views(words@);
        let ghost word = text@.subrange(start as int, i as int);
        words.push(text.substring_char(start, i));
        assert(views(words@) == before + seq![word]);
    }
    words
}

} // verus!

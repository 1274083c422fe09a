//! Plain splitting on separators: what the tokenizer does to a line that
//! holds neither quotes nor backslashes.

use vstd::prelude::*;
use crate::model::{flush, is_separator};

verus! {

/// No character of `text` is a separator.
pub open spec fn has_no_separator(text: Seq<char>) -> bool {
    forall|i: int| 0 <= i < text.len() ==> !is_separator(#[trigger] text[i])
}

/// Every character of `text` is a separator.
pub open spec fn is_blank(text: Seq<char>) -> bool {
    forall|i: int| 0 <= i < text.len() ==> is_separator(#[trigger] text[i])
}

/// The length of the longest prefix of `text` that holds no separator.
pub open spec fn word_len(text: Seq<char>) -> nat
    decreases text.len(),
{
    if text.len() == 0 || is_separator(text[0]) {
        0
    } else {
        1 + word_len(text.drop_first())
    }
}

/// The maximal runs of characters of `text` that hold no separator, from
/// left to right: leading and trailing separators are ignored and a run of
/// separators counts as one.
pub open spec fn words(text: Seq<char>) -> Seq<Seq<char>>
    decreases text.len(),
    via words_decreases
{
    if text.len() == 0 {
        Seq::empty()
    } else if is_separator(text[0]) {
        words(text.drop_first())
    } else {
        let n = word_len(text) as int;
        seq![text.take(n)] + words(text.skip(n))
    }
}

#[via_fn]
proof fn words_decreases(text: Seq<char>) {
    lemma_word_len_bounds(text);
}

/// `word_len` stays within the text, covers no separator, and stops at one.
pub proof fn lemma_word_len_bounds(text: Seq<char>)
    ensures
        word_len(text) <= text.len(),
        text.len() > 0 && !is_separator(text[0]) ==> word_len(text) > 0,
        has_no_separator(text.take(word_len(text) as int)),
        word_len(text) < text.len() ==> is_separator(text[word_len(text) as int]),
    decreases text.len(),
{
    if text.len() > 0 && !is_separator(text[0]) {
        let rest = text.drop_first();
        lemma_word_len_bounds(rest);
        let n = word_len(text) as int;
        assert forall|i: int| 0 <= i < n implies !is_separator(#[trigger] text.take(n)[i]) by {
            if i > 0 {
                assert(text.take(n)[i] == rest.take(n - 1)[i - 1]);
            }
        }
    }
}

/// A word followed by nothing or by a separator is the longest prefix
/// without one.
pub proof fn lemma_word_len_of_prefix(word: Seq<char>, text: Seq<char>)
    requires
        has_no_separator(word),
        text.len() == 0 || is_separator(text[0]),
    ensures
        word_len(word + text) == word.len(),
    decreases word.len(),
{
    if word.len() > 0 {
        let rest = word.drop_first();
        assert((word + text).drop_first() =~= rest + text);
        lemma_word_len_of_prefix(rest, text);
    }
}

/// What stands before the first separator is the first word, if it is not
/// empty; the words of what follows the separator come after it.
pub proof fn lemma_words_after_separator(word: Seq<char>, text: Seq<char>)
    requires
        has_no_separator(word),
        text.len() > 0,
        is_separator(text[0]),
    ensures
        words(word + text) == flush(Seq::empty(), word) + words(text.drop_first()),
{
    if word.len() > 0 {
        let line = word + text;
        lemma_word_len_of_prefix(word, text);
        assert(line.take(word.len() as int) =~= word);
        assert(line.skip(word.len() as int) =~= text);
        assert(words(text) == words(text.drop_first()));
    }
}

/// A text without separators is one word, or none if it is empty.
pub proof fn lemma_words_of_word(word: Seq<char>)
    requires
        has_no_separator(word),
    ensures
        words(word) == flush(Seq::empty(), word),
{
    if word.len() > 0 {
        let nothing = Seq::<char>::empty();
        lemma_word_len_of_prefix(word, nothing);
        assert(word.take(word.len() as int) =~= word);
        assert(word.skip(word.len() as int) =~= nothing);
        assert(words(word) =~= seq![word] + words(nothing));
    }
}

} // verus!

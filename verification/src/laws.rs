//! What holds of the tokens of every line.

use vstd::prelude::*;
use crate::model::{
    all_nonempty, finish, flush, is_plain, is_separator, scan, start, step, tokens_of, Mode, Scan,
};
use crate::words::{
    has_no_separator, is_blank, lemma_words_after_separator, lemma_words_of_word, words,
};

verus! {

/// Reading a text is reading its first character and then the rest.
pub proof fn lemma_scan_first(s: Scan, text: Seq<char>)
    requires
        text.len() > 0,
    ensures
        scan(s, text) == scan(step(s, text[0]), text.drop_first()),
    decreases text.len(),
{
    if text.len() == 1 {
        assert(scan(s, text.drop_last()) == s);
    } else {
        let front = text.drop_last();
        lemma_scan_first(s, front);
        assert(front.drop_first() =~= text.drop_first().drop_last());
    }
}

/// Reading two texts one after the other is reading their concatenation.
pub proof fn lemma_scan_concat(s: Scan, a: Seq<char>, b: Seq<char>)
    ensures
        scan(s, a + b) == scan(scan(s, a), b),
    decreases b.len(),
{
    if b.len() > 0 {
        lemma_scan_concat(s, a, b.drop_last());
        assert((a + b).drop_last() =~= a + b.drop_last());
    }
}

/// Every step keeps the completed tokens non-empty.
proof fn lemma_scan_keeps_tokens_nonempty(s: Scan, text: Seq<char>)
    requires
        all_nonempty(s.tokens),
    ensures
        all_nonempty(scan(s, text).tokens),
    decreases text.len(),
{
    if text.len() > 0 {
        lemma_scan_keeps_tokens_nonempty(s, text.drop_last());
    }
}

/// Tokens are completed in the order in which they appear: reading more
/// text only adds tokens after those already completed.
pub proof fn lemma_scan_extends_tokens(s: Scan, text: Seq<char>)
    ensures
        s.tokens.is_prefix_of(scan(s, text).tokens),
    decreases text.len(),
{
    if text.len() > 0 {
        lemma_scan_extends_tokens(s, text.drop_last());
    }
}

/// A backslash never waits for its character between single quotes, after
/// whatever text has been read.
pub proof fn lemma_no_escape_pends_in_single_quotes(text: Seq<char>)
    ensures
        scan(start(), text).mode == Mode::SingleQuoted ==> !scan(start(), text).escape_pending,
    decreases text.len(),
{
    if text.len() > 0 {
        lemma_no_escape_pends_in_single_quotes(text.drop_last());
    }
}

/// A quote left open is closed by the end of the line: the tokens are
/// those of the line with the closing quote added. For a double quote this
/// holds unless a backslash waits there for its character, which the added
/// quote would then be.
pub proof fn lemma_open_quote_closes_at_end(line: Seq<char>)
    ensures
        scan(start(), line).mode == Mode::SingleQuoted ==> tokens_of(line.push('\''))
            == tokens_of(line),
        scan(start(), line).mode == Mode::DoubleQuoted && !scan(start(), line).escape_pending
            ==> tokens_of(line.push('"')) == tokens_of(line),
{
    assert(line.push('\'').drop_last() =~= line);
    assert(line.push('"').drop_last() =~= line);
}

/// No token of a line is empty.
pub proof fn lemma_tokens_are_nonempty(line: Seq<char>)
    ensures
        all_nonempty(tokens_of(line)),
{
    lemma_scan_keeps_tokens_nonempty(start(), line);
}

/// From a state outside quotes with no escape pending, a text without
/// quotes and backslashes adds the words of the current token followed by
/// that text.
proof fn lemma_plain_scan(s: Scan, text: Seq<char>)
    requires
        s.mode == Mode::Normal,
        !s.escape_pending,
        has_no_separator(s.current),
        is_plain(text),
    ensures
        finish(scan(s, text)) == s.tokens + words(s.current + text),
    decreases text.len(),
{
    if text.len() == 0 {
        lemma_words_of_word(s.current);
    } else {
        let c = text[0];
        let rest = text.drop_first();
        let next = step(s, c);
        lemma_scan_first(s, text);
        lemma_plain_scan(next, rest);
        if is_separator(c) {
            lemma_words_after_separator(s.current, text);
        } else {
            assert(next.current + rest =~= s.current + text);
        }
    }
}

/// A line without quotes and backslashes is split on separators: its
/// tokens are its words, with runs of separators collapsed and leading and
/// trailing separators ignored.
pub proof fn lemma_plain_line_splits_into_words(line: Seq<char>)
    requires
        is_plain(line),
    ensures
        tokens_of(line) == words(line),
{
    lemma_plain_scan(start(), line);
}

/// A blank text has no words.
proof fn lemma_blank_has_no_words(text: Seq<char>)
    requires
        is_blank(text),
    ensures
        words(text) == Seq::<Seq<char>>::empty(),
    decreases text.len(),
{
    if text.len() > 0 {
        lemma_blank_has_no_words(text.drop_first());
    }
}

/// An empty line, and a line of separators only, has no tokens.
pub proof fn lemma_blank_line_has_no_tokens(line: Seq<char>)
    requires
        is_blank(line),
    ensures
        tokens_of(line) == Seq::<Seq<char>>::empty(),
{
    lemma_blank_has_no_words(line);
    lemma_plain_line_splits_into_words(line);
}

/// Between single quotes every character but the quote is taken as it is:
/// neither a backslash nor a separator nor a double quote means anything
/// there.
pub proof fn lemma_single_quoted_text_is_literal(s: Scan, text: Seq<char>)
    requires
        s.mode == Mode::SingleQuoted,
        !text.contains('\''),
    ensures
        scan(s, text) == (Scan { current: s.current + text, ..s }),
    decreases text.len(),
{
    if text.len() > 0 {
        let front = text.drop_last();
        lemma_single_quoted_text_is_literal(s, front);
        assert((s.current + front).push(text.last()) =~= s.current + text);
    }
}

/// A text without single quotes, put between single quotes, comes back as
/// it is: the line has that text as its one token, or no token if the text
/// is empty, and its tokens joined with nothing between them are the text.
pub proof fn lemma_single_quoted_round_trip(text: Seq<char>)
    requires
        !text.contains('\''),
    ensures
        tokens_of(seq!['\''] + text + seq!['\'']) == flush(Seq::empty(), text),
        tokens_of(seq!['\''] + text + seq!['\'']).flatten() == text,
{
    let quote = seq!['\''];
    let opened = Scan { mode: Mode::SingleQuoted, ..start() };
    assert(scan(start(), quote) == opened) by {
        assert(scan(start(), quote.drop_last()) == start());
    }
    lemma_scan_concat(start(), quote, text);
    lemma_single_quoted_text_is_literal(opened, text);
    let line = quote + text + quote;
    assert(line.drop_last() =~= quote + text);
    if text.len() > 0 {
        flush(Seq::empty(), text).lemma_flatten_one_element();
    }
}

} // verus!

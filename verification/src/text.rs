//! Text handling on top of the standard library's `str` and `String`:
//! white space, trimming, prefixes, the first word of a text, joining.

use vstd::prelude::*;
use vstd::std_specs::iter::IteratorSpec;

verus! {

/// Whether `c` is white space: one of the characters to which Unicode
/// gives the property `White_Space`. These are the controls from tab to
/// carriage return, the space, the next-line control, the no-break space,
/// the Ogham space mark, the spaces from en quad to hair space, the line
/// and paragraph separators, the narrow no-break space, the medium
/// mathematical space and the ideographic space.
pub open spec fn is_whitespace(c: char) -> bool {
    ||| '\u{9}' <= c <= '\u{d}'
    ||| c == ' '
    ||| c == '\u{85}'
    ||| c == '\u{a0}'
    ||| c == '\u{1680}'
    ||| '\u{2000}' <= c <= '\u{200a}'
    ||| c == '\u{2028}'
    ||| c == '\u{2029}'
    ||| c == '\u{202f}'
    ||| c == '\u{205f}'
    ||| c == '\u{3000}'
}

/// Whether `c` is white space.
pub fn is_whitespace_char(c: char) -> (b: bool)
    ensures
        b == is_whitespace(c),
{
    if c <= '\u{ff}' {
        (c >= '\u{9}' && c <= '\u{d}') || c == ' ' || c == '\u{85}' || c == '\u{a0}'
    } else {
        c == '\u{1680}' || (c >= '\u{2000}' && c <= '\u{200a}') || c == '\u{2028}'
            || c == '\u{2029}' || c == '\u{202f}' || c == '\u{205f}' || c == '\u{3000}'
    }
}

/// `String::push` of the standard library appends the one character `ch`
/// to the end of the string and leaves what was there before untouched.
/// This is assumed, not proved.
pub assume_specification[ String::push ](s: &mut String, ch: char)
    ensures
        final(s)@ == old(s)@.push(ch),
;

/// The number of white-space characters at the start of `text`.
pub open spec fn leading_whitespace(text: Seq<char>) -> nat
    decreases text.len(),
{
    if text.len() == 0 || !is_whitespace(text[0]) {
        0
    } else {
        1 + leading_whitespace(text.drop_first())
    }
}

/// The number of white-space characters at the end of `text`.
pub open spec fn trailing_whitespace(text: Seq<char>) -> nat
    decreases text.len(),
{
    if text.len() == 0 || !is_whitespace(text.last()) {
        0
    } else {
        1 + trailing_whitespace(text.drop_last())
    }
}

/// The number of characters at the start of `text` before the first white
/// space.
pub open spec fn leading_word(text: Seq<char>) -> nat
    decreases text.len(),
{
    if text.len() == 0 || is_whitespace(text[0]) {
        0
    } else {
        1 + leading_word(text.drop_first())
    }
}

/// `text` without the white space at its start.
pub open spec fn trim_start_of(text: Seq<char>) -> Seq<char> {
    text.skip(leading_whitespace(text) as int)
}

/// `text` without the white space at its end.
pub open spec fn trim_end_of(text: Seq<char>) -> Seq<char> {
    text.take(text.len() - trailing_whitespace(text))
}

/// `text` without the white space at its start and at its end.
pub open spec fn trim_of(text: Seq<char>) -> Seq<char> {
    trim_end_of(trim_start_of(text))
}

/// The first run of characters of `text` that are not white space, if
/// there is one.
pub open spec fn first_word_of(text: Seq<char>) -> Option<Seq<char>> {
    let rest = trim_start_of(text);
    if rest.len() == 0 {
        None
    } else {
        Some(rest.take(leading_word(rest) as int))
    }
}

/// What follows `prefix` in `text`, if `text` starts with it.
pub open spec fn strip_prefix_of(text: Seq<char>, prefix: Seq<char>) -> Option<Seq<char>> {
    if prefix.is_prefix_of(text) {
        Some(text.skip(prefix.len() as int))
    } else {
        None
    }
}

/// The characters of a text that may be missing.
pub open spec fn text_of(s: Option<&str>) -> Option<Seq<char>> {
    match s {
        Some(text) => Some(text@),
        None => None,
    }
}

/// The texts of `parts` in order, with one space between each two.
pub open spec fn join_of(parts: Seq<Seq<char>>) -> Seq<char>
    decreases parts.len(),
{
    if parts.len() == 0 {
        Seq::empty()
    } else if parts.len() == 1 {
        parts[0]
    } else {
        join_of(parts.drop_last()) + seq![' '] + parts.last()
    }
}

/// A count of leading white space is the right one if white space is all
/// that stands before it and none stands at it.
proof fn lemma_leading_whitespace(text: Seq<char>, k: nat)
    requires
        k <= text.len(),
        forall|i: int| 0 <= i < k ==> is_whitespace(#[trigger] text[i]),
        k < text.len() ==> !is_whitespace(text[k as int]),
    ensures
        leading_whitespace(text) == k,
    decreases k,
{
    if k > 0 {
        lemma_leading_whitespace(text.drop_first(), (k - 1) as nat);
    }
}

/// A count of trailing white space is the right one if white space is all
/// that stands after it and none stands just before it.
proof fn lemma_trailing_whitespace(text: Seq<char>, end: nat)
    requires
        end <= text.len(),
        forall|i: int| end <= i < text.len() ==> is_whitespace(#[trigger] text[i]),
        end > 0 ==> !is_whitespace(text[end - 1]),
    ensures
        trailing_whitespace(text) == text.len() - end,
    decreases text.len() - end,
{
    if end < text.len() {
        lemma_trailing_whitespace(text.drop_last(), end);
    }
}

/// The length of a leading word is the right one if no white space stands
/// before it and some stands at it.
proof fn lemma_leading_word(text: Seq<char>, k: nat)
    requires
        k <= text.len(),
        forall|i: int| 0 <= i < k ==> !is_whitespace(#[trigger] text[i]),
        k < text.len() ==> is_whitespace(text[k as int]),
    ensures
        leading_word(text) == k,
    decreases k,
{
    if k > 0 {
        lemma_leading_word(text.drop_first(), (k - 1) as nat);
    }
}

/// The number of characters at the start of `s`, of `n` in all, that are
/// white space (if `white`) or that are none (if not).
fn leading_run(s: &str, n: usize, white: bool) -> (k: usize)
    requires
        n == s@.len(),
    ensures
        k <= n,
        forall|i: int| 0 <= i < k ==> is_whitespace(#[trigger] s@[i]) == white,
        k < n ==> is_whitespace(s@[k as int]) != white,
{
    let mut rest = s.chars();
    let mut k: usize = 0;
    while k < n
        invariant_except_break
            rest.remaining() == s@.skip(k as int),
        invariant
            n == s@.len(),
            k <= n,
            forall|i: int| 0 <= i < k ==> is_whitespace(#[trigger] s@[i]) == white,
        ensures
            k <= n,
            forall|i: int| 0 <= i < k ==> is_whitespace(#[trigger] s@[i]) == white,
            k < n ==> is_whitespace(s@[k as int]) != white,
        decreases n - k,
    {
        let goes_on = match rest.next() {
            Some(c) => is_whitespace_char(c) == white,
            None => false,
        };
        if !goes_on {
            break;
        }
        k = k + 1;
    }
    k
}

/// `s` without the white space at its start.
pub fn trim_start(s: &str) -> (r: &str)
    ensures
        r@ == trim_start_of(s@),
{
    let n = s.unicode_len();
    let k = leading_run(s, n, true);
    proof {
        lemma_leading_whitespace(s@, k as nat);
    }
    s.substring_char(k, n)
}

/// `s` without the white space at its end.
pub fn trim_end(s: &str) -> (r: &str)
    ensures
        r@ == trim_end_of(s@),
{
    let n = s.unicode_len();
    let mut rest = s.chars();
    let mut end: usize = 0;
    for position in 0..n
        invariant
            n == s@.len(),
            rest.remaining() == s@.skip(position as int),
            end <= position,
            forall|i: int| end <= i < position ==> is_whitespace(#[trigger] s@[i]),
            end > 0 ==> !is_whitespace(s@[end - 1]),
    {
        if let Some(c) = rest.next() {
            if !is_whitespace_char(c) {
                end = position + 1;
            }
        }
    }
    proof {
        lemma_trailing_whitespace(s@, end as nat);
    }
    s.substring_char(0, end)
}

/// `s` without the white space at its start and at its end.
pub fn trim(s: &str) -> (r: &str)
    ensures
        r@ == trim_of(s@),
{
    trim_end(trim_start(s))
}

/// The first run of characters of `s` that are not white space, if there
/// is one.
pub fn first_word(s: &str) -> (word: Option<&str>)
    ensures
        text_of(word) == first_word_of(s@),
{
    let rest = trim_start(s);
    let n = rest.unicode_len();
    if n == 0 {
        return None;
    }
    let k = leading_run(rest, n, false);
    proof {
        lemma_leading_word(rest@, k as nat);
    }
    Some(rest.substring_char(0, k))
}

/// What follows `prefix` in `s`, if `s` starts with it.
pub fn strip_prefix<'a>(s: &'a str, prefix: &str) -> (rest: Option<&'a str>)
    ensures
        text_of(rest) == strip_prefix_of(s@, prefix@),
{
    let n = s.unicode_len();
    let m = prefix.unicode_len();
    if n < m {
        return None;
    }
    let mut ours = s.chars();
    let mut theirs = prefix.chars();
    let mut k: usize = 0;
    while k < m
        invariant_except_break
            ours.remaining() == s@.skip(k as int),
            theirs.remaining() == prefix@.skip(k as int),
        invariant
            n == s@.len(),
            m == prefix@.len(),
            k <= m <= n,
            forall|i: int| 0 <= i < k ==> s@[i] == #[trigger] prefix@[i],
        ensures
            k <= m,
            forall|i: int| 0 <= i < k ==> s@[i] == #[trigger] prefix@[i],
            k < m ==> s@[k as int] != prefix@[k as int],
        decreases m - k,
    {
        let same = match (ours.next(), theirs.next()) {
            (Some(a), Some(b)) => a == b,
            _ => false,
        };
        if !same {
            break;
        }
        k = k + 1;
    }
    if k == m {
        Some(s.substring_char(m, n))
    } else {
        None
    }
}

/// Whether `a` and `b` hold the same characters.
pub fn same_text(a: &str, b: &str) -> (same: bool)
    ensures
        same == (a@ == b@),
{
    match strip_prefix(a, b) {
        Some(rest) => {
            let same = rest.is_empty();
            assert(same ==> a@ =~= b@);
            same
        },
        None => false,
    }
}

/// The texts of `parts` in order, with one space between each two.
pub fn join_with_spaces(parts: &Vec<String>) -> (joined: String)
    ensures
        joined@ == join_of(parts.deep_view()),
{
    let mut joined = String::new();
    for i in 0..parts.len()
        invariant
            joined@ == join_of(parts.deep_view().take(i as int)),
    {
        let ghost before = parts.deep_view().take(i as int);
        let ghost now = parts.deep_view().take(i + 1);
        assert(now.drop_last() =~= before);
        if i > 0 {
            joined.push(' ');
        }
        joined.append(parts[i].as_str());
    }
    assert(parts.deep_view().take(parts.len() as int) =~= parts.deep_view());
    joined
}

} // verus!

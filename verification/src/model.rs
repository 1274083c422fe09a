//! The mathematical model of the tokenizer: a scanner state and the
//! transition it makes on each character of the line.

use vstd::prelude::*;

verus! {

/// The quoting context of the scanner.
#[derive(Clone, Copy, Debug, PartialEq, Eq, Structural)]
pub enum Mode {
    /// Outside any quotes.
    Normal,
    /// Between a `'` and the next `'`.
    SingleQuoted,
    /// Between a `"` and the next unescaped `"`.
    DoubleQuoted,
}

/// The state of a scan after some prefix of the line has been read.
pub struct Scan {
    /// The quoting context.
    pub mode: Mode,
    /// Whether the last character read was a backslash that still waits
    /// for the character it escapes.
    pub escape_pending: bool,
    /// The token under construction.
    pub current: Seq<char>,
    /// The tokens completed so far, in order of appearance.
    pub tokens: Seq<Seq<char>>,
}

/// The characters that separate tokens outside quotes: space, tab,
/// line feed, form feed and carriage return.
pub open spec fn is_separator(c: char) -> bool {
    c == ' ' || c == '\t' || c == '\n' || c == '\x0C' || c == '\r'
}

/// The characters with a meaning of their own: the two quotes and the
/// backslash.
pub open spec fn is_special(c: char) -> bool {
    c == '\'' || c == '"' || c == '\\'
}

/// No character of `text` is a quote or a backslash.
pub open spec fn is_plain(text: Seq<char>) -> bool {
    forall|i: int| 0 <= i < text.len() ==> !is_special(#[trigger] text[i])
}

/// No token of `tokens` is empty.
pub open spec fn all_nonempty(tokens: Seq<Seq<char>>) -> bool {
    forall|i: int| 0 <= i < tokens.len() ==> (#[trigger] tokens[i]).len() > 0
}

/// `tokens` with `current` added at the end, unless `current` is empty:
/// no empty token is ever produced.
pub open spec fn flush(tokens: Seq<Seq<char>>, current: Seq<char>) -> Seq<Seq<char>> {
    if current.len() == 0 {
        tokens
    } else {
        tokens.push(current)
    }
}

/// The state before any character has been read.
pub open spec fn start() -> Scan {
    Scan {
        mode: Mode::Normal,
        escape_pending: false,
        current: Seq::empty(),
        tokens: Seq::empty(),
    }
}

/// The transition on one character `c`.
///
/// Between double quotes, after a backslash, `"` and `\` are taken as they
/// are and any other character is taken together with the backslash before
/// it; otherwise a backslash waits for the next character, `"` ends the
/// quotation and any other character is taken as it is.
///
/// Between single quotes, `'` ends the quotation and any other character is
/// taken as it is.
///
/// Outside quotes, after a backslash, any character is taken as it is;
/// otherwise `'` and `"` open a quotation, a backslash waits for the next
/// character, a separator completes the token under construction and any
/// other character is taken as it is.
pub open spec fn step(s: Scan, c: char) -> Scan {
    match s.mode {
        Mode::DoubleQuoted => {
            if s.escape_pending {
                if c == '"' || c == '\\' {
                    Scan { escape_pending: false, current: s.current.push(c), ..s }
                } else {
                    Scan { escape_pending: false, current: s.current.push('\\').push(c), ..s }
                }
            } else if c == '\\' {
                Scan { escape_pending: true, ..s }
            } else if c == '"' {
                Scan { mode: Mode::Normal, ..s }
            } else {
                Scan { current: s.current.push(c), ..s }
            }
        },
        Mode::SingleQuoted => {
            if c == '\'' {
                Scan { mode: Mode::Normal, ..s }
            } else {
                Scan { current: s.current.push(c), ..s }
            }
        },
        Mode::Normal => {
            if s.escape_pending {
                Scan { escape_pending: false, current: s.current.push(c), ..s }
            } else if c == '\'' {
                Scan { mode: Mode::SingleQuoted, ..s }
            } else if c == '"' {
                Scan { mode: Mode::DoubleQuoted, ..s }
            } else if c == '\\' {
                Scan { escape_pending: true, ..s }
            } else if is_separator(c) {
                Scan { current: Seq::empty(), tokens: flush(s.tokens, s.current), ..s }
            } else {
                Scan { current: s.current.push(c), ..s }
            }
        },
    }
}

/// The state reached from `s` by reading all of `text`, left to right.
pub open spec fn scan(s: Scan, text: Seq<char>) -> Scan
    decreases text.len(),
{
    if text.len() == 0 {
        s
    } else {
        step(scan(s, text.drop_last()), text.last())
    }
}

/// The tokens of a scan that ends in state `s`: a backslash that still
/// waits for its character is kept as itself, an open quote is closed, and
/// the token under construction is completed.
pub open spec fn finish(s: Scan) -> Seq<Seq<char>> {
    let last = if s.escape_pending {
        s.current.push('\\')
    } else {
        s.current
    };
    flush(s.tokens, last)
}

/// The tokens of `line`.
pub open spec fn tokens_of(line: Seq<char>) -> Seq<Seq<char>> {
    finish(scan(start(), line))
}

} // verus!

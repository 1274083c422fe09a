//! The executable tokenizer, verified against the model.

use vstd::prelude::*;
use crate::laws::{lemma_plain_line_splits_into_words, lemma_tokens_are_nonempty};
use crate::model::{
    finish, flush, is_plain, is_separator, scan, start, step, tokens_of, Mode, Scan,
};
use crate::words::words;

verus! {

/// Whether `c` separates tokens outside quotes.
pub fn is_separator_char(c: char) -> (b: bool)
    ensures
        b == is_separator(c),
{
    c == ' ' || c == '\t' || c == '\n' || c == '\x0C' || c == '\r'
}

/// The scanner's working state while it reads one line.
struct Scanner {
    mode: Mode,
    escape_pending: bool,
    current: String,
    tokens: Vec<String>,
}

impl View for Scanner {
    type V = Scan;

    closed spec fn view(&self) -> Scan {
        Scan {
            mode: self.mode,
            escape_pending: self.escape_pending,
            current: self.current@,
            tokens: self.tokens.deep_view(),
        }
    }
}

impl Scanner {
    fn new() -> (s: Self)
        ensures
            s@ == start(),
    {
        let s = Scanner {
            mode: Mode::Normal,
            escape_pending: false,
            current: String::new(),
            tokens: Vec::new(),
        };
        assert(s.tokens.deep_view() =~= Seq::<Seq<char>>::empty());
        s
    }

    /// Moves the token under construction to the output, unless it is empty.
    fn complete_token(&mut self)
        ensures
            final(self)@ == (Scan {
                current: Seq::empty(),
                tokens: flush(old(self)@.tokens, old(self)@.current),
                ..old(self)@
            }),
    {
        if !self.current.as_str().is_empty() {
            let mut token = String::new();
            core::mem::swap(&mut token, &mut self.current);
            self.tokens.push(token);
            assert(self.tokens.deep_view() =~= old(self).tokens.deep_view().push(token@));
        } else {
            assert(self.current@ =~= Seq::empty());
        }
    }

    fn feed(&mut self, c: char)
        ensures
            final(self)@ == step(old(self)@, c),
    {
        match self.mode {
            Mode::DoubleQuoted => {
                if self.escape_pending {
                    if !(c == '"' || c == '\\') {
                        self.current.push('\\');
                    }
                    self.current.push(c);
                    self.escape_pending = false;
                } else if c == '\\' {
                    self.escape_pending = true;
                } else if c == '"' {
                    self.mode = Mode::Normal;
                } else {
                    self.current.push(c);
                }
            },
            Mode::SingleQuoted => {
                if c == '\'' {
                    self.mode = Mode::Normal;
                } else {
                    self.current.push(c);
                }
            },
            Mode::Normal => {
                if self.escape_pending {
                    self.current.push(c);
                    self.escape_pending = false;
                } else if c == '\'' {
                    self.mode = Mode::SingleQuoted;
                } else if c == '"' {
                    self.mode = Mode::DoubleQuoted;
                } else if c == '\\' {
                    self.escape_pending = true;
                } else if is_separator_char(c) {
                    self.complete_token();
                } else {
                    self.current.push(c);
                }
            },
        }
    }

    fn finish(self) -> (tokens: Vec<String>)
        ensures
            tokens.deep_view() == finish(self@),
    {
        let mut s = self;
        if s.escape_pending {
            s.current.push('\\');
        }
        s.complete_token();
        s.tokens
    }
}

/// Splits one line of input into its argument tokens.
///
/// Outside quotes, separators end a token and a backslash makes the next
/// character an ordinary one. Between single quotes every character is
/// taken as it is. Between double quotes a backslash escapes only `"` and
/// `\`; before any other character it stays in the token. No line is
/// rejected: a quote left open ends with the line, and a backslash at the
/// very end is kept as itself. No token is empty, and a line without
/// quotes and backslashes is simply split on separators.
pub fn split_quoted_line(line: &str) -> (tokens: Vec<String>)
    ensures
        tokens.deep_view() == tokens_of(line@),
        forall|i: int| 0 <= i < tokens.len() ==> (#[trigger] tokens[i])@.len() > 0,
        is_plain(line@) ==> tokens.deep_view() == words(line@),
{
    let mut s = Scanner::new();
    for c in it: line.chars()
        invariant
            it.seq() == line@,
            s@ == scan(start(), line@.take(it.index())),
    {
        assert(line@.take(it.index() + 1).drop_last() =~= line@.take(it.index()));
        s.feed(c);
    }
    assert(line@.take(line@.len() as int) =~= line@);
    let tokens = s.finish();
    proof {
        lemma_tokens_are_nonempty(line@);
        if is_plain(line@) {
            lemma_plain_line_splits_into_words(line@);
        }
        assert forall|i: int| 0 <= i < tokens.len() implies (#[trigger] tokens[i])@.len() > 0 by {
            assert(tokens[i]@ == tokens.deep_view()[i]);
        }
    }
    tokens
}

} // verus!

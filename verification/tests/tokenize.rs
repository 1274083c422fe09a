use line_tokenizer::split_quoted_line;
use line_tokenizer::tokenizer::is_separator_char;

fn owned(tokens: &[&str]) -> Vec<String> {
    tokens.iter().map(|t| t.to_string()).collect()
}

#[test]
fn empty_line_has_no_tokens() {
    assert_eq!(split_quoted_line(""), Vec::<String>::new());
}

#[test]
fn line_of_spaces_has_no_tokens() {
    assert_eq!(split_quoted_line("   "), Vec::<String>::new());
}

#[test]
fn line_of_mixed_separators_has_no_tokens() {
    assert_eq!(split_quoted_line(" \t\n\x0C\r "), Vec::<String>::new());
}

#[test]
fn plain_words_are_split_on_spaces() {
    assert_eq!(split_quoted_line("ls -l /tmp"), owned(&["ls", "-l", "/tmp"]));
}

#[test]
fn runs_of_separators_collapse() {
    assert_eq!(split_quoted_line("  a   b \t\t c  "), owned(&["a", "b", "c"]));
}

#[test]
fn every_ascii_separator_splits() {
    assert_eq!(
        split_quoted_line("a b\tc\nd\x0Ce\rf"),
        owned(&["a", "b", "c", "d", "e", "f"])
    );
}

#[test]
fn vertical_tab_is_no_separator() {
    assert_eq!(split_quoted_line("a\x0Bb"), owned(&["a\x0Bb"]));
}

#[test]
fn no_break_space_is_no_separator() {
    assert_eq!(split_quoted_line("a\u{a0}b"), owned(&["a\u{a0}b"]));
}

#[test]
fn plain_line_matches_whitespace_split() {
    let line = "  alpha beta\tgamma   delta ";
    let expected: Vec<String> = line.split_ascii_whitespace().map(|w| w.to_string()).collect();
    assert_eq!(split_quoted_line(line), expected);
    assert_eq!(expected, owned(&["alpha", "beta", "gamma", "delta"]));
}

#[test]
fn single_quotes_keep_spaces() {
    assert_eq!(split_quoted_line("'a b'"), owned(&["a b"]));
}

#[test]
fn single_quotes_keep_backslashes_and_double_quotes() {
    assert_eq!(split_quoted_line("'a\\b \"c\"'"), owned(&["a\\b \"c\""]));
}

#[test]
fn single_quotes_do_not_escape_the_closing_quote() {
    assert_eq!(split_quoted_line("'a\\' b"), owned(&["a\\", "b"]));
}

#[test]
fn double_quotes_keep_an_escaped_quote() {
    assert_eq!(split_quoted_line("\"a\\\"b\""), owned(&["a\"b"]));
}

#[test]
fn double_quotes_keep_backslash_before_other_characters() {
    assert_eq!(split_quoted_line("\"a\\nb\""), owned(&["a\\nb"]));
}

#[test]
fn double_quotes_turn_two_backslashes_into_one() {
    assert_eq!(split_quoted_line("\"a\\\\b\""), owned(&["a\\b"]));
}

#[test]
fn double_quotes_keep_spaces_and_single_quotes() {
    assert_eq!(split_quoted_line("\"it's  here\""), owned(&["it's  here"]));
}

#[test]
fn double_quotes_keep_backslash_before_space() {
    assert_eq!(split_quoted_line("\"a\\ b\""), owned(&["a\\ b"]));
}

#[test]
fn escaped_space_joins_words() {
    assert_eq!(split_quoted_line("a\\ b"), owned(&["a b"]));
}

#[test]
fn escaped_quotes_outside_quotes_are_literal() {
    assert_eq!(split_quoted_line("\\'a\\' \\\"b\\\""), owned(&["'a'", "\"b\""]));
}

#[test]
fn escaped_backslash_outside_quotes_is_one_backslash() {
    assert_eq!(split_quoted_line("a\\\\b"), owned(&["a\\b"]));
}

#[test]
fn escaped_letter_outside_quotes_loses_the_backslash() {
    assert_eq!(split_quoted_line("a\\nb"), owned(&["anb"]));
}

#[test]
fn trailing_backslash_is_kept() {
    assert_eq!(split_quoted_line("foo\\"), owned(&["foo\\"]));
}

#[test]
fn lone_backslash_is_a_token() {
    assert_eq!(split_quoted_line("\\"), owned(&["\\"]));
}

#[test]
fn trailing_backslash_inside_double_quotes_is_kept() {
    assert_eq!(split_quoted_line("\"abc\\"), owned(&["abc\\"]));
}

#[test]
fn unterminated_single_quote_ends_with_the_line() {
    assert_eq!(split_quoted_line("echo 'a b"), owned(&["echo", "a b"]));
}

#[test]
fn unterminated_double_quote_ends_with_the_line() {
    assert_eq!(split_quoted_line("echo \"a b"), owned(&["echo", "a b"]));
}

#[test]
fn empty_quotes_give_no_token() {
    assert_eq!(split_quoted_line("''"), Vec::<String>::new());
    assert_eq!(split_quoted_line("\"\""), Vec::<String>::new());
    assert_eq!(split_quoted_line("a '' b"), owned(&["a", "b"]));
}

#[test]
fn lone_quote_gives_no_token() {
    assert_eq!(split_quoted_line("'"), Vec::<String>::new());
    assert_eq!(split_quoted_line("\""), Vec::<String>::new());
}

#[test]
fn adjacent_pieces_form_one_token() {
    assert_eq!(split_quoted_line("a'b c'\"d e\"f"), owned(&["ab cd ef"]));
}

#[test]
fn quotes_inside_a_word_do_not_split_it() {
    assert_eq!(split_quoted_line("ab''cd x\"\"y"), owned(&["abcd", "xy"]));
}

#[test]
fn tokens_come_in_order_of_appearance() {
    assert_eq!(
        split_quoted_line("one 'two three' \"four five\" six\\ seven"),
        owned(&["one", "two three", "four five", "six seven"])
    );
}

#[test]
fn characters_beyond_ascii_are_kept() {
    assert_eq!(
        split_quoted_line("héllo 'wörld ✓' 日本語"),
        owned(&["héllo", "wörld ✓", "日本語"])
    );
}

#[test]
fn no_token_is_empty() {
    let lines = ["", "  ", "a  b", "'' \"\" x", "\\", "' '", "a\\", "\"\\\"\"", "''''"];
    for line in lines {
        for token in split_quoted_line(line) {
            assert!(!token.is_empty());
        }
    }
}

#[test]
fn single_quoted_text_round_trips() {
    let texts = [
        "",
        "x",
        "a b",
        "  lead and trail  ",
        "back\\slash",
        "dq \" inside",
        "tab\there",
        "ünï",
    ];
    for text in texts {
        let line = format!("'{}'", text);
        let tokens = split_quoted_line(&line);
        assert_eq!(tokens.concat(), text);
        if text.is_empty() {
            assert!(tokens.is_empty());
        } else {
            assert_eq!(tokens, vec![text.to_string()]);
        }
    }
}

#[test]
fn separators_are_the_five_ascii_ones() {
    for c in [' ', '\t', '\n', '\x0C', '\r'] {
        assert!(is_separator_char(c));
    }
    for c in ['a', '\x0B', '\u{a0}', '\u{85}', '\u{3000}', '\\', '\'', '"', '\0'] {
        assert!(!is_separator_char(c));
    }
    for code in 0u32..=0x10ffff {
        if let Some(c) = char::from_u32(code) {
            assert_eq!(is_separator_char(c), c.is_ascii_whitespace());
        }
    }
}

#[test]
fn open_quote_closes_at_the_end_of_the_line() {
    for line in ["'abc", "x 'a b", "''  '", "a'\\"] {
        assert_eq!(split_quoted_line(line), split_quoted_line(&format!("{}'", line)));
    }
    for line in ["\"abc", "x \"a b", "\"\\\"", "a\"'"] {
        assert_eq!(split_quoted_line(line), split_quoted_line(&format!("{}\"", line)));
    }
}

#[test]
fn longer_line_keeps_the_tokens_already_completed() {
    let line = "one 'two three' \"four\" five\\ six 'seven";
    let all = split_quoted_line(line);
    assert_eq!(all, vec!["one", "two three", "four", "five six", "seven"]);
    let cuts = [
        "one ",
        "one 'two three' ",
        "one 'two three' \"four\" ",
        "one 'two three' \"four\" five\\ six ",
    ];
    for (count, cut) in cuts.iter().enumerate() {
        assert!(line.starts_with(cut));
        assert_eq!(split_quoted_line(cut), all[..count + 1].to_vec());
    }
}

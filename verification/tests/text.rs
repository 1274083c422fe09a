use line_tokenizer::text::{
    first_word, is_whitespace_char, join_with_spaces, same_text, strip_prefix, trim, trim_end,
    trim_start,
};

const SAMPLES: [&str; 14] = [
    "",
    " ",
    "a",
    "  a",
    "a  ",
    "  a b  ",
    "\t\n a \r\n",
    "\u{a0}x\u{3000}",
    "\u{2028}\u{2029}",
    "x\u{85}",
    "a\u{b}b",
    " \u{200b} ",
    "héllo  wörld ",
    "   exit 3",
];

#[test]
fn trim_start_drops_leading_white_space() {
    assert_eq!(trim_start("  a b  "), "a b  ");
    assert_eq!(trim_start("\t\n a"), "a");
    assert_eq!(trim_start("a "), "a ");
    assert_eq!(trim_start("   "), "");
    assert_eq!(trim_start(""), "");
}

#[test]
fn trim_end_drops_trailing_white_space() {
    assert_eq!(trim_end("  a b  "), "  a b");
    assert_eq!(trim_end("a \r\n"), "a");
    assert_eq!(trim_end(" a"), " a");
    assert_eq!(trim_end("   "), "");
    assert_eq!(trim_end(""), "");
}

#[test]
fn trim_drops_white_space_at_both_ends() {
    assert_eq!(trim("  a b  "), "a b");
    assert_eq!(trim("\n"), "");
    assert_eq!(trim(""), "");
    assert_eq!(trim("x"), "x");
}

#[test]
fn trim_knows_white_space_beyond_ascii() {
    assert_eq!(trim("\u{a0}x\u{3000}"), "x");
    assert_eq!(trim("\u{2028}a b\u{2029}"), "a b");
    assert_eq!(trim("\u{85}"), "");
}

#[test]
fn trim_keeps_what_is_no_white_space() {
    assert_eq!(trim("\u{200b}x\u{200b}"), "\u{200b}x\u{200b}");
    assert_eq!(trim("_x_"), "_x_");
}

#[test]
fn trimming_agrees_with_the_standard_library() {
    for sample in SAMPLES {
        assert_eq!(trim(sample), sample.trim());
        assert_eq!(trim_start(sample), sample.trim_start());
        assert_eq!(trim_end(sample), sample.trim_end());
    }
}

#[test]
fn first_word_is_the_first_run_without_white_space() {
    assert_eq!(first_word("  foo bar"), Some("foo"));
    assert_eq!(first_word("foo"), Some("foo"));
    assert_eq!(first_word("foo\tbar"), Some("foo"));
    assert_eq!(first_word("a\u{a0}b"), Some("a"));
    assert_eq!(first_word(" 3"), Some("3"));
}

#[test]
fn first_word_of_blank_text_is_missing() {
    assert_eq!(first_word(""), None);
    assert_eq!(first_word("   "), None);
    assert_eq!(first_word("\t\u{3000}\n"), None);
}

#[test]
fn first_word_agrees_with_the_standard_library() {
    for sample in SAMPLES {
        assert_eq!(first_word(sample), sample.split_whitespace().next());
    }
}

#[test]
fn strip_prefix_gives_what_follows_the_prefix() {
    assert_eq!(strip_prefix("exit 3", "exit"), Some(" 3"));
    assert_eq!(strip_prefix("exit", "exit"), Some(""));
    assert_eq!(strip_prefix("abc", ""), Some("abc"));
    assert_eq!(strip_prefix("", ""), Some(""));
    assert_eq!(strip_prefix("~/x", "~"), Some("/x"));
    assert_eq!(strip_prefix("ünï code", "ünï"), Some(" code"));
}

#[test]
fn strip_prefix_fails_without_the_prefix() {
    assert_eq!(strip_prefix("ex", "exit"), None);
    assert_eq!(strip_prefix("", "x"), None);
    assert_eq!(strip_prefix("abc", "abd"), None);
    assert_eq!(strip_prefix(" exit", "exit"), None);
    assert_eq!(strip_prefix("Exit", "exit"), None);
}

#[test]
fn strip_prefix_agrees_with_the_standard_library() {
    let prefixes = ["", " ", "a", "  a", "ex", "exit", "\u{a0}", "hé", "x\u{85}y"];
    for sample in SAMPLES {
        for prefix in prefixes {
            assert_eq!(strip_prefix(sample, prefix), sample.strip_prefix(prefix));
        }
    }
}

#[test]
fn same_text_compares_character_by_character() {
    assert!(same_text("", ""));
    assert!(same_text("pwd", "pwd"));
    assert!(!same_text("pwd", "pw"));
    assert!(!same_text("pw", "pwd"));
    assert!(!same_text("pwd", "pwD"));
    assert!(!same_text("pwd", ""));
    assert!(same_text("日本", "日本"));
}

#[test]
fn join_puts_one_space_between_parts() {
    let none: Vec<String> = Vec::new();
    assert_eq!(join_with_spaces(&none), "");
    assert_eq!(join_with_spaces(&vec!["a".to_string()]), "a");
    assert_eq!(
        join_with_spaces(&vec!["a".to_string(), "b c".to_string(), "d".to_string()]),
        "a b c d"
    );
    assert_eq!(join_with_spaces(&vec!["".to_string(), "".to_string()]), " ");
}

#[test]
fn join_agrees_with_the_standard_library() {
    let parts = vec!["one".to_string(), "".to_string(), "two  three".to_string(), "ü".to_string()];
    for count in 0..=parts.len() {
        let some = parts[..count].to_vec();
        assert_eq!(join_with_spaces(&some), some.join(" "));
    }
}

#[test]
fn white_space_is_what_unicode_calls_so() {
    for c in [' ', '\t', '\n', '\x0B', '\x0C', '\r', '\u{85}', '\u{a0}', '\u{1680}', '\u{2000}'] {
        assert!(is_whitespace_char(c));
    }
    for c in ['\u{200a}', '\u{2028}', '\u{2029}', '\u{202f}', '\u{205f}', '\u{3000}'] {
        assert!(is_whitespace_char(c));
    }
    for c in ['a', '0', '_', '\0', '\x08', '\x0E', '\x1F', '\u{200b}', '\u{180e}', '\u{feff}'] {
        assert!(!is_whitespace_char(c));
    }
}

#[test]
fn white_space_agrees_with_the_standard_library() {
    for code in 0u32..=0x10ffff {
        if let Some(c) = char::from_u32(code) {
            assert_eq!(is_whitespace_char(c), c.is_whitespace(), "{:?}", c);
        }
    }
}

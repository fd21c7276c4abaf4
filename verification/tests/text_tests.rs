use rust_web_scrapper::text::{
    char_is_whitespace, chars_of, first_line_of, normalize_whitespace, trim, word_count,
};

#[test]
fn whitespace_agrees_with_the_standard_library_on_every_character() {
    let mut code: u32 = 0;
    while code <= 0x10FFFF {
        if let Some(c) = char::from_u32(code) {
            assert_eq!(char_is_whitespace(c), c.is_whitespace(), "U+{:04X}", code);
        }
        code += 1;
    }
}

#[test]
fn chars_of_gives_every_character_in_order() {
    assert_eq!(chars_of("héllo"), vec!['h', 'é', 'l', 'l', 'o']);
    assert_eq!(chars_of(""), Vec::<char>::new());
}

#[test]
fn normalize_collapses_runs_and_trims_both_ends() {
    assert_eq!(normalize_whitespace("  one   two\n\tthree  "), "one two three");
    assert_eq!(normalize_whitespace("single"), "single");
    assert_eq!(normalize_whitespace("trailing "), "trailing");
    assert_eq!(normalize_whitespace(" leading"), "leading");
    assert_eq!(normalize_whitespace(""), "");
    assert_eq!(normalize_whitespace(" \u{a0}\u{3000} "), "");
    assert_eq!(normalize_whitespace("a\u{2003}b"), "a b");
}

#[test]
fn normalize_is_a_join_of_the_words() {
    let texts = ["  a  b ", "x", "", " \n", "one\ttwo\r\nthree", "é  ü"];
    for text in texts {
        let expected: Vec<&str> = text.split_whitespace().collect();
        assert_eq!(normalize_whitespace(text), expected.join(" "));
    }
}

#[test]
fn normalize_twice_is_normalize_once() {
    let texts = ["  a  b ", "x", "", " \n", "one\ttwo\r\nthree"];
    for text in texts {
        let once = normalize_whitespace(text);
        assert_eq!(normalize_whitespace(&once), once);
    }
}

#[test]
fn word_count_counts_runs_of_non_whitespace() {
    assert_eq!(word_count(""), 0);
    assert_eq!(word_count("   "), 0);
    assert_eq!(word_count("one"), 1);
    assert_eq!(word_count(" one  two\nthree "), 3);
    assert_eq!(word_count("a b c d e"), 5);
}

#[test]
fn word_count_agrees_with_split_whitespace() {
    let texts = ["", " ", "a", "a b", "  a\t\tb\n", "x\u{a0}y", "one two three four"];
    for text in texts {
        assert_eq!(word_count(text), text.split_whitespace().count());
    }
}

#[test]
fn word_count_is_kept_by_normalization() {
    let texts = ["  a  b ", "x", "", "one\ttwo\r\nthree"];
    for text in texts {
        assert_eq!(word_count(&normalize_whitespace(text)), word_count(text));
    }
}

#[test]
fn trim_agrees_with_the_standard_library() {
    let texts = ["", " ", "a", " a", "a ", "  a b  ", "\n\tx\r\n", "\u{a0}y\u{2009}", "é "];
    for text in texts {
        assert_eq!(trim(text), text.trim());
    }
}

#[test]
fn first_line_agrees_with_the_standard_library() {
    let texts = ["a", "a\nb", "a\r\nb", "a\rb\nc", "\nb", "\r\nb", "a\n", "é\r\nü", "a\r"];
    for text in texts {
        assert_eq!(Some(first_line_of(text)), text.lines().next());
    }
    assert_eq!(first_line_of(""), "");
}

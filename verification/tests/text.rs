use desktop_exporter::text::{
    chars_of, decimal_string, get_first_word, is_decimal, is_space_char, is_whitespace_char,
    parse_u64,
    push_decimal, push_line, same_text, split_words, starts_with,
};

#[test]
fn decimal_of_small_and_large_numbers() {
    assert_eq!(decimal_string(0), "0");
    assert_eq!(decimal_string(7), "7");
    assert_eq!(decimal_string(10), "10");
    assert_eq!(decimal_string(1234567890), "1234567890");
    assert_eq!(decimal_string(u64::MAX), "18446744073709551615");
}

#[test]
fn push_decimal_appends_to_what_is_there() {
    let mut out = "n=".to_string();
    push_decimal(&mut out, 405);
    assert_eq!(out, "n=405");
    push_decimal(&mut out, 0);
    assert_eq!(out, "n=4050");
}

#[test]
fn push_line_writes_name_space_value_newline() {
    let mut out = String::new();
    push_line(&mut out, "a", "1");
    push_line(&mut out, "b{label=\"x\"}", "2.5");
    push_line(&mut out, "", "");
    assert_eq!(out, "a 1\nb{label=\"x\"} 2.5\n \n");
}

#[test]
fn same_text_compares_whole_texts() {
    assert!(same_text("", ""));
    assert!(same_text("abc", "abc"));
    assert!(!same_text("abc", "abd"));
    assert!(!same_text("abc", "ab"));
    assert!(!same_text("", " "));
}

#[test]
fn words_are_split_at_ascii_whitespace() {
    assert_eq!(split_words("  a bb\t\tccc \r\n"), vec!["a", "bb", "ccc"]);
    assert_eq!(split_words("one"), vec!["one"]);
    assert_eq!(split_words(""), Vec::<String>::new());
    assert_eq!(split_words(" \t\n\x0c\r"), Vec::<String>::new());
    assert_eq!(split_words("a\u{a0}b c\x0bd"), vec!["a\u{a0}b", "c\x0bd"]);
    assert_eq!(split_words("\u{e9}t\u{e9} 1"), vec!["\u{e9}t\u{e9}", "1"]);
}

#[test]
fn first_word_is_cut_at_unicode_white_space() {
    assert_eq!(get_first_word("45 C"), Some("45".to_string()));
    assert_eq!(get_first_word("  45"), Some("45".to_string()));
    assert_eq!(get_first_word("a\u{a0}b"), Some("a".to_string()));
    assert_eq!(get_first_word("\u{3000}\u{2003}x\x0by"), Some("x".to_string()));
    assert_eq!(get_first_word("a\u{200b}b c"), Some("a\u{200b}b".to_string()));
    assert_eq!(get_first_word(""), None);
    assert_eq!(get_first_word(" \u{85}\u{1680}\u{2028}\u{2029}\u{202f}\u{205f}"), None);
}

#[test]
fn whitespace_tests_agree_with_the_standard_ones() {
    for code in 0u32..0x3100 {
        if let Some(c) = char::from_u32(code) {
            assert_eq!(is_whitespace_char(c), c.is_whitespace());
            assert_eq!(is_space_char(c), c.is_ascii_whitespace());
        }
    }
}

#[test]
fn unsigned_numbers_are_read_as_the_standard_library_reads_them() {
    for text in ["0", "7", "+7", "007", "18446744073709551615", "18446744073709551616", "", "+", "-0", "1 ", " 1", "1_0", "0x1", "++1", "99999999999999999999999", "\u{663}"] {
        assert_eq!(parse_u64(text), text.parse::<u64>().ok());
    }
    assert_eq!(parse_u64("18446744073709551615"), Some(u64::MAX));
    assert_eq!(parse_u64("18446744073709551616"), None);
    assert_eq!(parse_u64("+0012"), Some(12));
}

#[test]
fn decimal_and_parse_are_inverse() {
    for n in [0u64, 1, 9, 10, 99, 100, 4096, u64::MAX - 1, u64::MAX] {
        assert_eq!(parse_u64(&decimal_string(n)), Some(n));
    }
}

#[test]
fn starts_with_compares_the_beginning() {
    assert!(starts_with("cpu0 1", "cpu"));
    assert!(starts_with("cpu", "cpu"));
    assert!(starts_with("x", ""));
    assert!(starts_with("", ""));
    assert!(!starts_with("cp", "cpu"));
    assert!(!starts_with(" cpu", "cpu"));
    assert!(!starts_with("", "c"));
}

#[test]
fn chars_of_gives_every_character() {
    assert_eq!(chars_of("a\u{b0}\n"), vec!['a', '\u{b0}', '\n']);
    assert_eq!(chars_of(""), Vec::<char>::new());
}

#[test]
fn words_agree_with_the_standard_split() {
    let samples = [
        "",
        " ",
        "a",
        " a",
        "a ",
        "cpu  10 20 30",
        "\t\tMemTotal:\t 16316412 kB\r",
        "a\nb\x0cc\rd\te f",
        "no-space",
        "  lo: 1 2 3 4 5 6 7 8 9 10 11 12 13 14 15 16  ",
        "\u{a0}x\u{2003}y z",
        "tab\x0bvertical end",
    ];
    for text in samples {
        let expected: Vec<String> = text.split_ascii_whitespace().map(|w| w.to_string()).collect();
        assert_eq!(split_words(text), expected);
        assert_eq!(
            get_first_word(text),
            text.split_whitespace().next().map(|w| w.to_string())
        );
    }
}

#[test]
fn decimal_values_are_digits_with_at_most_one_point() {
    for good in ["0", "100.00", "8.29", ".5", "5.", "0.096", "18446744073709551616"] {
        assert!(is_decimal(good));
        assert!(good.parse::<f64>().is_ok());
    }
    for bad in ["", ".", "..", "1.2.3", "1..2", "-1", "+1", "1e3", " 1", "1 ", "1\n", "a", "\u{663}"] {
        assert!(!is_decimal(bad));
    }
}

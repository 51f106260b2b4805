use lib_ria::text::{chars_of, decimal_string, split_lines, split_whitespace, whitespace};

fn texts() -> Vec<&'static str> {
    vec![
        "",
        " ",
        "a",
        "  1.0  2.0  3.0  ",
        "  1.0  2.0\n  ",
        "1.0 2.0\n3.0 4.0\n",
        "1.0 2.0\r\n3.0 4.0\r\n",
        "a\r",
        "a\r\n",
        "\r\n",
        "\n",
        "\n\n",
        "a\n\nb",
        "a\nb",
        "a\n\rb\r\r\n",
        "\ta\u{b}b\u{c}c\rd",
        "x\u{85}y\u{a0}z\u{1680}w",
        "p\u{2000}q\u{200a}r\u{2028}s\u{2029}t\u{202f}u\u{205f}v\u{3000}w",
        "no\u{200b}break\u{feff}here",
        "0.188\u{2013}1.94 \u{b5}m",
    ]
}

#[test]
fn split_whitespace_agrees_with_the_standard_library() {
    for text in texts() {
        let expected: Vec<String> = text.split_whitespace().map(|t| t.to_string()).collect();
        assert_eq!(split_whitespace(text), expected, "{text:?}");
    }
}

#[test]
fn split_lines_agrees_with_the_standard_library() {
    for text in texts() {
        let expected: Vec<String> = text.lines().map(|t| t.to_string()).collect();
        assert_eq!(split_lines(text), expected, "{text:?}");
    }
}

#[test]
fn split_whitespace_gives_the_tokens_in_order() {
    assert_eq!(split_whitespace("  1.0  2.0  3.0  "), ["1.0", "2.0", "3.0"]);
    assert!(split_whitespace(" \n\t ").is_empty());
}

#[test]
fn split_lines_drops_the_line_ends_and_keeps_empty_lines() {
    assert_eq!(split_lines("1.0 2.0\n\n3.0 4.0\r\n"), ["1.0 2.0", "", "3.0 4.0"]);
    assert_eq!(split_lines("a\r"), ["a\r"]);
    assert!(split_lines("").is_empty());
}

#[test]
fn whitespace_agrees_with_the_standard_library_on_every_character() {
    for code in 0..=0x10FFFFu32 {
        if let Some(c) = char::from_u32(code) {
            assert_eq!(whitespace(c), c.is_whitespace(), "U+{code:04X}");
        }
    }
}

#[test]
fn chars_of_gives_the_characters() {
    assert_eq!(chars_of("n,k \u{b5}m"), vec!['n', ',', 'k', ' ', '\u{b5}', 'm']);
    assert!(chars_of("").is_empty());
}

#[test]
fn decimal_string_agrees_with_the_standard_library() {
    for n in [0u64, 1, 9, 10, 11, 99, 100, 101, 1064, 4294967295, 4294967296, u64::MAX] {
        assert_eq!(decimal_string(n), n.to_string());
    }
    assert_eq!(decimal_string(1064), "1064");
}

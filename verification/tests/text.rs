use tool_coordinator::text::{append_decimal, char_is_white_space, join, text_at_most, trim};

#[test]
fn trim_removes_white_space_at_both_ends() {
    assert_eq!(trim("  hello world \n"), "hello world");
    assert_eq!(trim("hello"), "hello");
    assert_eq!(trim("\t\r\n x \u{a0}\u{3000}"), "x");
    assert_eq!(trim(" a b "), "a b");
}

#[test]
fn trim_of_white_space_is_empty() {
    assert_eq!(trim(""), "");
    assert_eq!(trim("   "), "");
    assert_eq!(trim("\n\t\u{2003}"), "");
}

#[test]
fn trim_agrees_with_the_standard_library() {
    for text in [
        "",
        " ",
        "a",
        " a",
        "a ",
        "  a  b  ",
        "\u{85}x\u{85}",
        "\u{1680}x\u{2000}\u{200a}",
        "\u{2028}x\u{2029}",
        "\u{202f}x\u{205f}",
        "\u{200b}x\u{200b}",
        "\u{180e}x",
        "\u{feff}x",
        "\u{1c}x\u{1f}",
        "é \u{1F600} ",
    ] {
        assert_eq!(trim(text), text.trim(), "{text:?}");
    }
}

#[test]
fn white_space_agrees_with_the_standard_library() {
    for code in 0u32..=0x3100 {
        if let Some(c) = char::from_u32(code) {
            assert_eq!(char_is_white_space(c), c.is_whitespace(), "{code:#x}");
        }
    }
    for c in ['\u{feff}', '\u{e000}', '\u{1F600}', '\u{10FFFF}'] {
        assert_eq!(char_is_white_space(c), c.is_whitespace());
    }
}

#[test]
fn text_at_most_is_the_order_of_strings() {
    let samples = ["", "a", "A", "ab", "abc", "abd", "b", "é", "z", "\u{FFFD}", "\u{1F600}", "a\u{1F600}"];
    for a in samples {
        for b in samples {
            assert_eq!(text_at_most(a, b), a <= b, "{a:?} {b:?}");
        }
    }
}

#[test]
fn text_at_most_puts_a_prefix_first() {
    assert!(text_at_most("", ""));
    assert!(text_at_most("", "a"));
    assert!(!text_at_most("a", ""));
    assert!(text_at_most("ab", "abc"));
    assert!(!text_at_most("abc", "ab"));
    assert!(text_at_most("same", "same"));
}

#[test]
fn join_puts_the_separator_between_parts() {
    let parts = |items: &[&str]| items.iter().map(|item| item.to_string()).collect::<Vec<_>>();
    assert_eq!(join(&parts(&[]), ","), "");
    assert_eq!(join(&parts(&["a"]), ","), "a");
    assert_eq!(join(&parts(&["a", "b", "c"]), ","), "a,b,c");
    assert_eq!(join(&parts(&["", ""]), "--"), "--");
    assert_eq!(join(&parts(&["a", "b"]), ""), "ab");
    assert_eq!(join(&parts(&["x", "y"]), "\u{1f}"), "x\u{1f}y");
}

#[test]
fn append_decimal_writes_digits_after_the_text() {
    for value in [0u64, 1, 9, 10, 11, 99, 100, 101, 12345, 1_000_000_007, u64::MAX] {
        let mut text = String::from("n=");
        append_decimal(&mut text, value);
        assert_eq!(text, format!("n={value}"));
    }
}

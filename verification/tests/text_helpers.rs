use chat::text::{is_white_space_char, str_equal, trim};

#[test]
fn trim_matches_std_on_samples() {
    let samples = [
        "",
        "   ",
        "alice",
        "  alice  ",
        "\t\n bob \r\n",
        "\u{3000}тест\u{00a0}",
        "a b",
        "\u{2028}x\u{2029}",
        "\u{200b}zero width\u{200b}",
        "\u{85}next line\u{1680}",
    ];
    for sample in samples {
        assert_eq!(trim(sample), sample.trim(), "sample {:?}", sample);
    }
}

#[test]
fn white_space_matches_std() {
    for code in 0u32..0x3100 {
        if let Some(c) = char::from_u32(code) {
            assert_eq!(is_white_space_char(c), c.is_whitespace(), "code {:x}", code);
        }
    }
}

#[test]
fn str_equal_compares_contents() {
    assert!(str_equal("abc", "abc"));
    assert!(!str_equal("abc", "abd"));
    assert!(!str_equal("", "a"));
}

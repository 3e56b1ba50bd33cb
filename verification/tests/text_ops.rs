use rlwy::text::{
    is_whitespace, lines_of, lower_char, push_decimal,
    chars_of, contains_chars, eq_ignore_ascii_case, first_line_chars, lower_chars, parse_u64,
    same_text, starts_with_chars, string_of, strip_end_chars, strip_start_chars, take_prefix,
    trim_chars,
};

fn s(v: &[char]) -> String {
    v.iter().collect()
}

#[test]
fn trim_matches_std_on_unicode_whitespace() {
    let samples = [
        "  hello \t\n",
        "\u{a0}\u{2003}word\u{3000}",
        "\u{85}x\u{1680}",
        "no-trim",
        "   ",
        "",
        "\r\n mid dle \u{2028}",
    ];
    for t in samples {
        let c = chars_of(t);
        assert_eq!(s(&trim_chars(&c)), t.trim());
    }
}

#[test]
fn first_line_matches_std_lines() {
    let samples = ["", "one", "one\ntwo", "one\r\ntwo", "one\r", "\nrest", "a\rb\nc", "\r\n"];
    for t in samples {
        let c = chars_of(t);
        let got = first_line_chars(&c).map(|v| s(&v));
        let want = t.lines().next().map(|l| l.to_string());
        assert_eq!(got, want, "input {:?}", t);
    }
}

#[test]
fn parse_u64_matches_std() {
    let samples = [
        "0", "42", "+7", "-1", "+", "", " 1", "18446744073709551615", "18446744073709551616",
        "007", "1a", "99999999999999999999",
    ];
    for t in samples {
        let c = chars_of(t);
        assert_eq!(parse_u64(&c), t.parse::<u64>().ok(), "input {:?}", t);
    }
}

#[test]
fn lowercase_and_case_insensitive_equality() {
    let c = chars_of("HeLLo-ÄÖ");
    assert_eq!(s(&lower_chars(&c)), "HeLLo-ÄÖ".to_ascii_lowercase());
    assert!(eq_ignore_ascii_case("Production", "PRODUCTION"));
    assert!(!eq_ignore_ascii_case("Ä", "ä"));
    assert!(!eq_ignore_ascii_case("prod", "production"));
}

#[test]
fn substring_prefix_and_strip() {
    let hay = chars_of("/home/u/target/release/rlwy");
    assert!(contains_chars(&hay, &chars_of("/target/release/")));
    assert!(!contains_chars(&hay, &chars_of("/target/debug/")));
    assert!(contains_chars(&hay, &chars_of("")));
    assert!(starts_with_chars(&chars_of("abc123"), &chars_of("abc")));
    assert!(!starts_with_chars(&chars_of("ab"), &chars_of("abc")));
    assert_eq!(s(&strip_end_chars(&chars_of("https://x.com///"), '/')), "https://x.com");
    assert_eq!(s(&strip_start_chars(&chars_of("vv1.2.0"), 'v')), "1.2.0");
    assert_eq!(s(&take_prefix(&chars_of("abcdef0123"), 7)), "abcdef0");
    assert_eq!(s(&take_prefix(&chars_of("abc"), 7)), "abc");
    assert_eq!(string_of(&chars_of("ümlaut")), "ümlaut");
    assert!(same_text("a", "a"));
    assert!(!same_text("a", "b"));
}

#[test]
fn whitespace_and_lowercase_agree_with_std_for_every_char() {
    for u in 0u32..=0x10FFFF {
        if let Some(c) = char::from_u32(u) {
            assert_eq!(is_whitespace(c), c.is_whitespace(), "char {:#x}", u);
            assert_eq!(lower_char(c), c.to_ascii_lowercase(), "char {:#x}", u);
        }
    }
}

#[test]
fn decimal_rendering() {
    for n in [0usize, 7, 10, 99, 100, 12345, usize::MAX] {
        let mut v = Vec::new();
        push_decimal(&mut v, n);
        assert_eq!(v.iter().collect::<String>(), n.to_string());
    }
}

#[test]
fn lines_match_std() {
    let samples = ["", "a", "a\n", "a\nb", "a\r\nb\r\n", "\n", "\n\n", "a\rb", "x\r", "one\n\ntwo\r\n"];
    for t in samples {
        let got = lines_of(&chars_of(t));
        let want: Vec<String> = t.lines().map(str::to_string).collect();
        assert_eq!(got, want, "input {:?}", t);
    }
}

use vid2txt::text::{
    chars_of, contains, decimal, ends_with, is_space, less_than, starts_with,
    starts_with_ignore_ascii_case, string_of, trim,
};

fn chars(s: &str) -> Vec<char> {
    s.chars().collect()
}

fn samples() -> Vec<&'static str> {
    vec![
        "", " ", "a", "ab", "abc", "ABC", "aBc", " abc ", "\tabc\n", "\u{a0}x\u{3000}", "x y",
        "ggml-base.bin", "ggml-base-q5.bin", "-q", ".q", "q", "--q", "é", "ée", "e\u{301}",
        "\u{2028}z", "z\u{85}", "\u{200b}z", "zz", "za", "z", "Z", "\u{10ffff}", "a\u{10ffff}",
    ]
}

#[test]
fn white_space_is_what_std_calls_white_space() {
    let mut n: u32 = 0;
    while n <= 0x10ffff {
        if let Some(c) = char::from_u32(n) {
            assert_eq!(is_space(c), c.is_whitespace(), "code point {:x}", n);
        }
        n += 1;
    }
}

#[test]
fn chars_and_strings_convert_both_ways() {
    for s in samples() {
        let v = chars_of(s);
        assert_eq!(v, chars(s));
        assert_eq!(string_of(&v), s);
    }
}

#[test]
fn trim_removes_white_space_at_both_ends_only() {
    for s in samples() {
        assert_eq!(string_of(&trim(&chars(s))), s.trim(), "input {:?}", s);
    }
    assert_eq!(string_of(&trim(&chars("  a b  "))), "a b");
    assert_eq!(string_of(&trim(&chars(" \t\n "))), "");
}

#[test]
fn prefix_suffix_and_substring_agree_with_std() {
    for a in samples() {
        for b in samples() {
            assert_eq!(starts_with(&chars(a), &chars(b)), a.starts_with(b), "{:?} {:?}", a, b);
            assert_eq!(ends_with(&chars(a), &chars(b)), a.ends_with(b), "{:?} {:?}", a, b);
            assert_eq!(contains(&chars(a), &chars(b)), a.contains(b), "{:?} {:?}", a, b);
            assert_eq!(less_than(&chars(a), &chars(b)), a < b, "{:?} {:?}", a, b);
        }
    }
}

#[test]
fn the_empty_string_is_part_of_every_string() {
    assert!(contains(&chars("abc"), &chars("")));
    assert!(contains(&chars(""), &chars("")));
    assert!(!contains(&chars(""), &chars("a")));
}

#[test]
fn prefix_ignoring_ascii_case_folds_ascii_letters_only() {
    assert!(starts_with_ignore_ascii_case(&chars("HTTP://x"), &chars("http://")));
    assert!(starts_with_ignore_ascii_case(&chars("FiLe://x"), &chars("file://")));
    assert!(!starts_with_ignore_ascii_case(&chars("http:/"), &chars("http://")));
    assert!(!starts_with_ignore_ascii_case(&chars("\u{17f}x"), &chars("sx")));
    assert!(!starts_with_ignore_ascii_case(&chars("Éa"), &chars("éa")));
}

#[test]
fn decimal_numerals() {
    assert_eq!(decimal(0), "0");
    assert_eq!(decimal(7), "7");
    assert_eq!(decimal(10), "10");
    assert_eq!(decimal(16000), "16000");
    assert_eq!(decimal(u64::MAX), "18446744073709551615");
    let mut n: u64 = 0;
    while n < 3000 {
        assert_eq!(decimal(n), n.to_string());
        n += 1;
    }
}

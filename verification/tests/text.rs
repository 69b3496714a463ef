use sql_report::decimal::decimal_string;
use sql_report::text::{chars_of, is_space_char, substring_of, trim_bounds};

#[test]
fn white_space_is_what_char_says() {
    for code in 0..=0x10ffffu32 {
        if let Some(c) = char::from_u32(code) {
            assert_eq!(is_space_char(c), c.is_whitespace(), "U+{:04X}", code);
        }
    }
}

#[test]
fn chars_of_a_string() {
    assert_eq!(chars_of("aé日"), vec!['a', 'é', '日']);
    assert_eq!(chars_of(""), Vec::<char>::new());
}

#[test]
fn trim_bounds_agree_with_trim() {
    for text in ["", " ", "a", "  a b  ", "\n\ta", "a\r\n", "\u{a0}x\u{3000}y\u{2009}", " \t\n "] {
        let chars: Vec<char> = text.chars().collect();
        let (from, to) = trim_bounds(&chars);
        assert!(from <= to && to <= chars.len());
        assert_eq!(substring_of(&chars, from, to), text.trim());
    }
}

#[test]
fn trim_bounds_of_blank_text_are_empty() {
    let chars = vec![' ', '\t', '\n'];
    let (from, to) = trim_bounds(&chars);
    assert_eq!(from, to);
}

#[test]
fn substring_of_a_range() {
    let chars = vec!['a', 'é', '日', 'b'];
    assert_eq!(substring_of(&chars, 1, 3), "é日");
    assert_eq!(substring_of(&chars, 0, 4), "aé日b");
    assert_eq!(substring_of(&chars, 2, 2), "");
}

#[test]
fn decimal_of_small_numbers() {
    assert_eq!(decimal_string(0), "0");
    assert_eq!(decimal_string(7), "7");
    assert_eq!(decimal_string(10), "10");
    assert_eq!(decimal_string(-1), "-1");
    assert_eq!(decimal_string(-42), "-42");
    assert_eq!(decimal_string(1234567890), "1234567890");
}

#[test]
fn decimal_of_the_extremes() {
    assert_eq!(decimal_string(i64::MAX), "9223372036854775807");
    assert_eq!(decimal_string(i64::MIN), "-9223372036854775808");
}

#[test]
fn decimal_agrees_with_to_string() {
    let mut v: i64 = 1;
    for _ in 0..62 {
        for w in [v, -v, v - 1, v + 1, -v - 1] {
            assert_eq!(decimal_string(w), w.to_string());
        }
        v *= 2;
    }
}

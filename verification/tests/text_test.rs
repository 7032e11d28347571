//! Scanning text: the library against the standard library.

use bridge_parser::helper::number::is_float_literal;
use bridge_parser::helper::pattern::FingerprintPattern;
use bridge_parser::helper::text::{
    char_is_whitespace, split_chars, split_key_value, split_lines, split_words, starts_with,
    string_of, to_chars, trim_chars, trim_end_chars,
};

fn strings(parts: Vec<Vec<char>>) -> Vec<String> {
    parts.iter().map(|part| part.iter().collect()).collect()
}

#[test]
fn white_space_is_that_of_the_standard_library() {
    let mut code: u32 = 0;
    while code <= 0x10FFFF {
        if let Some(c) = char::from_u32(code) {
            assert_eq!(char_is_whitespace(c), c.is_whitespace(), "character {:x}", code);
        }
        code += 1;
    }
}

#[test]
fn words_are_those_of_the_standard_library() {
    let samples = [
        "",
        " ",
        "a",
        " a ",
        "a b",
        "\ta\u{3000}b\r\nc  d\u{a0}e ",
        "one=two three",
        "\u{2003}x",
    ];
    for sample in samples {
        let expected: Vec<String> = sample.split_whitespace().map(|w| w.to_string()).collect();
        assert_eq!(strings(split_words(&to_chars(sample))), expected, "sample {:?}", sample);
    }
}

#[test]
fn lines_are_those_of_the_standard_library() {
    let samples = [
        "",
        "\n",
        "a",
        "a\n",
        "a\n\nb",
        "foo\nbar\n\r\nbaz\r",
        "a\r\nb\r\n",
        "\r",
        "a\r\r\nb",
        "\n\n",
    ];
    for sample in samples {
        let expected: Vec<String> = sample.lines().map(|l| l.to_string()).collect();
        assert_eq!(strings(split_lines(&to_chars(sample))), expected, "sample {:?}", sample);
    }
}

#[test]
fn splitting_and_trimming_are_those_of_the_standard_library() {
    let samples = ["", "/", "a", "a/b", "/a/b/", "//a//b//", "recent/bridge-pool-assignments"];
    for sample in samples {
        let chars = to_chars(sample);
        let expected: Vec<String> = sample.split('/').map(|p| p.to_string()).collect();
        assert_eq!(strings(split_chars(&chars, '/')), expected, "sample {:?}", sample);
        assert_eq!(string_of(&trim_chars(&chars, '/')), sample.trim_matches('/'));
        assert_eq!(string_of(&trim_end_chars(&chars, '/')), sample.trim_end_matches('/'));
    }
}

#[test]
fn key_and_value_split_at_a_single_equals_sign() {
    let split = |token: &str| {
        split_key_value(&to_chars(token)).map(|(k, v)| (string_of(&k), string_of(&v)))
    };
    assert_eq!(split("a=b"), Some(("a".to_string(), "b".to_string())));
    assert_eq!(split("a="), Some(("a".to_string(), String::new())));
    assert_eq!(split("=b"), Some((String::new(), "b".to_string())));
    assert_eq!(split("="), Some((String::new(), String::new())));
    assert_eq!(split("ab"), None);
    assert_eq!(split(""), None);
    assert_eq!(split("a=b=c"), None);
    assert_eq!(split("a=="), None);
}

#[test]
fn prefixes() {
    let token = to_chars("bridge-pool-assignment");
    assert!(starts_with(&to_chars("bridge-pool-assignment 2024"), &token));
    assert!(starts_with(&to_chars("bridge-pool-assignment"), &token));
    assert!(!starts_with(&to_chars("bridge-pool"), &token));
    assert!(!starts_with(&to_chars(" bridge-pool-assignment"), &token));
    assert!(starts_with(&to_chars("x"), &to_chars("")));
}

#[test]
fn decimal_notation_is_that_of_the_standard_library() {
    let samples = [
        "", "1", "1.", ".5", ".", "1.902", "-1.5", "+1.5", "+", "-", "1e5", "1E5", "1e", "1e+",
        "1e+5", "1e-5", "e5", ".e5", "1.e5", "inf", "-inf", "INF", "Infinity", "infinit", "nan",
        "NaN", "+nan", "nana", "1_000", "0x10", " 1", "1 ", "1.2.3", "--1", "1e5.5", "١", "1,5",
        "00012", "1.0e00", "infinity1", "in", "+.", "-.e1", "5e-", "9999999999999999999999999999",
        "1d5", "1f", "1.5f32",
    ];
    for sample in samples {
        let expected = sample.parse::<f32>().is_ok();
        assert_eq!(is_float_literal(&to_chars(sample)), expected, "sample {:?}", sample);
    }
}

#[test]
fn fingerprint_pattern_accepts_forty_hexadecimal_digits() {
    let pattern = FingerprintPattern::new().unwrap();
    assert!(pattern.matches("005fd4d7decbb250055b861579e6fdc79ad17bee"));
    assert!(pattern.matches("1234567890ABCDEF1234567890ABCDEF12345678"));
    assert!(!pattern.matches("005fd4d7decbb250055b861579e6fdc79ad17be"));
    assert!(!pattern.matches("005fd4d7decbb250055b861579e6fdc79ad17bee0"));
    assert!(!pattern.matches("g05fd4d7decbb250055b861579e6fdc79ad17bee"));
    assert!(!pattern.matches("005fd4d7decbb250055b861579e6fdc79ad17bee\n"));
    assert!(!pattern.matches(""));
}

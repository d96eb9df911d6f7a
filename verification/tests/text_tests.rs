use ucm::text::{
    chars_are, is_whitespace_char, parse_integer, push_decimal, split_words, string_of, to_chars,
    trim_chars,
};

fn chars(text: &str) -> Vec<char> {
    text.chars().collect()
}

fn text(chars: &[char]) -> String {
    chars.iter().collect()
}

#[test]
fn white_space_is_that_of_unicode() {
    let mut code: u32 = 0;
    while code <= 0x10FFFF {
        if let Some(c) = char::from_u32(code) {
            assert_eq!(is_whitespace_char(c), c.is_whitespace(), "U+{code:04X}");
        }
        code += 1;
    }
}

#[test]
fn numbers_are_written_in_decimal() {
    for n in [0u64, 1, 9, 10, 11, 99, 100, 101, 999, 1000, 12345, 4294967296, u64::MAX] {
        let mut out = String::from("n=");
        push_decimal(&mut out, n);
        assert_eq!(out, format!("n={n}"));
    }
}

#[test]
fn characters_and_strings_convert() {
    for sample in ["", "a", "3 weeks", "日本語", "a\u{0301}b"] {
        assert_eq!(to_chars(sample), chars(sample));
        assert_eq!(string_of(&chars(sample)), sample);
        assert!(chars_are(&chars(sample), sample));
    }
    assert!(!chars_are(&chars("day"), "days"));
    assert!(!chars_are(&chars("days"), "day"));
    assert!(!chars_are(&chars("day"), "dax"));
    assert!(!chars_are(&chars(""), "x"));
}

#[test]
fn trimming_is_that_of_the_standard_library() {
    for sample in [
        "",
        " ",
        "   ",
        "a",
        " a",
        "a ",
        "  a b  ",
        "\t\n x \r\n",
        "\u{a0}x\u{3000}",
        " \u{2003}3 weeks\u{2028}",
        "x  y",
    ] {
        assert_eq!(text(&trim_chars(&chars(sample))), sample.trim(), "{sample:?}");
    }
}

#[test]
fn words_are_those_of_the_standard_library() {
    for sample in [
        "",
        " ",
        "a",
        " a",
        "a ",
        "3 weeks",
        "  3   weeks  ",
        "a b c",
        "\ta\nb\r\nc ",
        "3\u{a0}weeks",
        "one\u{2003}two\u{3000}three",
        "-5 days",
    ] {
        let found: Vec<String> = split_words(&chars(sample)).iter().map(|w| text(w)).collect();
        let expected: Vec<String> = sample.split_whitespace().map(|w| w.to_string()).collect();
        assert_eq!(found, expected, "{sample:?}");
    }
}

#[test]
fn whole_numbers_are_read_as_the_standard_library_reads_them() {
    for sample in [
        "",
        "0",
        "7",
        "007",
        "+7",
        "-7",
        "-0",
        "+",
        "-",
        "--7",
        "+-7",
        "7-",
        "7 ",
        " 7",
        "3.5",
        "1e3",
        "0x10",
        "12a",
        "a12",
        "\u{663}",
        "１２",
        "9223372036854775807",
        "9223372036854775808",
        "-9223372036854775808",
        "-9223372036854775809",
        "+9223372036854775807",
        "92233720368547758070",
        "18446744073709551615",
        "18446744073709551616",
        "-18446744073709551616",
        "99999999999999999999999999",
        "000000000000000000000000000000042",
        "922337203685477580",
        "922337203685477581",
    ] {
        assert_eq!(parse_integer(&chars(sample)), sample.parse::<i64>().ok(), "{sample:?}");
    }
}

use duration::blank::{is_blank_char, trim_bounds};
use duration::decimal::{decimal_string, parse_unsigned};

fn read(text: &str) -> Option<u32> {
    let chars: Vec<char> = text.chars().collect();
    parse_unsigned(&chars, 0, chars.len())
}

fn trimmed(text: &str) -> String {
    let chars: Vec<char> = text.chars().collect();
    let (from, to) = trim_bounds(&chars, 0, chars.len());
    chars[from..to].iter().collect()
}

#[test]
fn numerals_are_written_without_padding() {
    assert_eq!(decimal_string(0), "0");
    assert_eq!(decimal_string(7), "7");
    assert_eq!(decimal_string(10), "10");
    assert_eq!(decimal_string(99), "99");
    assert_eq!(decimal_string(100), "100");
    assert_eq!(decimal_string(1000000007), "1000000007");
    assert_eq!(decimal_string(4294967295), "4294967295");
}

#[test]
fn numerals_read_back_as_their_number() {
    for n in (0u32..100000).chain([u32::MAX - 1, u32::MAX, 1 << 31, 999999999, 1000000000]) {
        let text = decimal_string(n);
        assert_eq!(text, format!("{}", n));
        assert_eq!(read(&text), Some(n));
    }
}

#[test]
fn unsigned_numerals_are_read() {
    assert_eq!(read("0"), Some(0));
    assert_eq!(read("12"), Some(12));
    assert_eq!(read("007"), Some(7));
    assert_eq!(read("+5"), Some(5));
    assert_eq!(read("+0"), Some(0));
    assert_eq!(read("4294967295"), Some(4294967295));
    assert_eq!(read("+0004294967295"), Some(4294967295));
    assert_eq!(read("00000000000000000000000000000000000001"), Some(1));
}

#[test]
fn what_is_no_unsigned_numeral_is_not_read() {
    for text in [
        "", "+", "-", "-0", "-1", "++1", "+-1", "1+", "1 ", " 1", "1_0", "1.0", "0x10", "a",
        "3a", "\u{663}", "\u{ff11}", "4294967296", "4294967300", "42949672950", "99999999999999999999",
        "+4294967296",
    ] {
        assert_eq!(read(text), None);
    }
}

#[test]
fn reading_numerals_agrees_with_the_standard_library() {
    for text in [
        "", "0", "1", "12", "012", "+12", "-12", "+", "-", "++12", "12a", "a12", " 12", "12 ",
        "4294967295", "4294967296", "04294967295", "+4294967295", "18446744073709551616",
        "1e3", "\u{663}", "1\u{a0}", "0000", "+0000", "9", "99", "999", "59", "60",
    ] {
        assert_eq!(read(text), text.parse::<u32>().ok());
    }
}

#[test]
fn a_part_of_the_characters_is_read() {
    let chars: Vec<char> = "12:30".chars().collect();
    assert_eq!(parse_unsigned(&chars, 0, 2), Some(12));
    assert_eq!(parse_unsigned(&chars, 3, 5), Some(30));
    assert_eq!(parse_unsigned(&chars, 1, 2), Some(2));
    assert_eq!(parse_unsigned(&chars, 0, 3), None);
    assert_eq!(parse_unsigned(&chars, 2, 2), None);
    assert_eq!(parse_unsigned(&chars, 5, 5), None);
}

#[test]
fn white_space_is_what_the_standard_library_calls_white_space() {
    for n in 0u32..=0x10ffff {
        if let Some(c) = char::from_u32(n) {
            assert_eq!(is_blank_char(c), c.is_whitespace());
        }
    }
}

#[test]
fn white_space_at_both_ends_is_trimmed() {
    assert_eq!(trimmed(""), "");
    assert_eq!(trimmed("   "), "");
    assert_eq!(trimmed("12"), "12");
    assert_eq!(trimmed(" 12"), "12");
    assert_eq!(trimmed("12 "), "12");
    assert_eq!(trimmed(" \t 1 2 \n"), "1 2");
    assert_eq!(trimmed("\u{a0}\u{2003}x\u{3000}\u{85}"), "x");
    assert_eq!(trimmed("\u{200b}x\u{180e}"), "\u{200b}x\u{180e}");
}

#[test]
fn trimming_agrees_with_the_standard_library() {
    for text in [
        "", " ", "  ", "a", " a", "a ", " a ", "  a b  ", "\t\n\r a", "\u{b}\u{c}a\u{1680}",
        "\u{2028}a\u{2029}", "\u{202f}\u{205f}", "a\u{feff}", "\u{200a}a\u{2000}", "\u{1f}a\u{1c}",
    ] {
        assert_eq!(trimmed(text), text.trim());
    }
}

#[test]
fn a_part_of_the_characters_is_trimmed() {
    let chars: Vec<char> = " 3 : 45 ".chars().collect();
    assert_eq!(trim_bounds(&chars, 0, 3), (1, 2));
    assert_eq!(trim_bounds(&chars, 4, 8), (5, 7));
    assert_eq!(trim_bounds(&chars, 0, 1), (1, 1));
    assert_eq!(trim_bounds(&chars, 2, 2), (2, 2));
    assert_eq!(trim_bounds(&chars, 1, 2), (1, 2));
}

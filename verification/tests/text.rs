use flagfetch::number::{decimal_string, digit, digit_value, parse_u32, parse_u64, signed_decimal_string};
use flagfetch::text::{chars_of, find, is_whitespace, slice, spaces, split_lines, string_from, string_of, trim_bounds};

fn chars(s: &str) -> Vec<char> {
    s.chars().collect()
}

fn lines_of(s: &str) -> Vec<String> {
    split_lines(&chars(s)).iter().map(|l| l.iter().collect()).collect()
}

fn trimmed(s: &str) -> String {
    let c = chars(s);
    let (a, b) = trim_bounds(&c, 0, c.len());
    string_from(&c, a, b)
}

#[test]
fn chars_of_keeps_every_character() {
    assert_eq!(chars_of("héllo ✓"), vec!['h', 'é', 'l', 'l', 'o', ' ', '✓']);
    assert_eq!(chars_of(""), Vec::<char>::new());
}

#[test]
fn slice_and_string_from_take_the_range() {
    let c = chars("hello world");
    assert_eq!(slice(&c, 6, 11), chars("world"));
    assert_eq!(slice(&c, 3, 3), Vec::<char>::new());
    assert_eq!(string_from(&c, 0, 5), "hello");
    assert_eq!(string_of(&c), "hello world");
}

#[test]
fn find_gives_the_first_occurrence_or_the_end() {
    let c = chars("a:b:c");
    assert_eq!(find(&c, 0, 5, ':'), 1);
    assert_eq!(find(&c, 2, 5, ':'), 3);
    assert_eq!(find(&c, 4, 5, ':'), 5);
    assert_eq!(find(&c, 0, 1, ':'), 1);
    assert_eq!(find(&c, 0, 0, ':'), 0);
}

#[test]
fn spaces_has_the_asked_length() {
    assert_eq!(spaces(0), "");
    assert_eq!(spaces(1), " ");
    assert_eq!(spaces(5), "     ");
}

#[test]
fn whitespace_is_what_the_standard_library_calls_whitespace() {
    let mut code: u32 = 0;
    while code <= 0x10FFFF {
        if let Some(c) = char::from_u32(code) {
            assert_eq!(is_whitespace(c), c.is_whitespace(), "U+{:04X}", code);
        }
        code += 1;
    }
}

#[test]
fn trim_drops_white_space_at_both_ends_only() {
    assert_eq!(trimmed("  a b \t"), "a b");
    assert_eq!(trimmed("a"), "a");
    assert_eq!(trimmed(""), "");
    assert_eq!(trimmed(" \n\t "), "");
    assert_eq!(trimmed("\u{3000}x\u{a0}"), "x");
}

#[test]
fn trim_agrees_with_the_standard_library() {
    for s in ["", " ", "a", " a", "a ", "  a  b  ", "\t\r\nx y\u{2003}", "\u{85}\u{1680}z"] {
        assert_eq!(trimmed(s), s.trim(), "{:?}", s);
    }
}

#[test]
fn trim_bounds_stays_inside_the_range() {
    let c = chars("xx  ab  yy");
    assert_eq!(trim_bounds(&c, 2, 8), (4, 6));
    assert_eq!(trim_bounds(&c, 2, 4), (4, 4));
    assert_eq!(trim_bounds(&c, 0, 10), (0, 10));
}

#[test]
fn lines_end_at_line_feeds() {
    assert_eq!(lines_of("a\nb\nc"), vec!["a", "b", "c"]);
    assert_eq!(lines_of("a\nb\n"), vec!["a", "b"]);
    assert_eq!(lines_of(""), Vec::<String>::new());
    assert_eq!(lines_of("\n"), vec![""]);
    assert_eq!(lines_of("a\n\nb"), vec!["a", "", "b"]);
    assert_eq!(lines_of("one line"), vec!["one line"]);
}

#[test]
fn lines_drop_a_carriage_return_before_a_line_feed_only() {
    assert_eq!(lines_of("a\r\nb\r\n"), vec!["a", "b"]);
    assert_eq!(lines_of("a\rb\n"), vec!["a\rb"]);
    assert_eq!(lines_of("a\r"), vec!["a\r"]);
    assert_eq!(lines_of("a\r\r\n"), vec!["a\r"]);
    assert_eq!(lines_of("\r\n"), vec![""]);
}

#[test]
fn lines_agree_with_the_standard_library() {
    let alphabet = ['a', '\n', '\r', ' '];
    let mut texts: Vec<String> = vec![String::new()];
    let mut round = 0;
    while round < 6 {
        let mut longer: Vec<String> = Vec::new();
        for t in texts.iter().filter(|t| t.chars().count() == round) {
            for c in alphabet {
                let mut s = t.clone();
                s.push(c);
                longer.push(s);
            }
        }
        texts.extend(longer);
        round += 1;
    }
    for t in texts {
        let expected: Vec<String> = t.lines().map(|l| l.to_string()).collect();
        assert_eq!(lines_of(&t), expected, "{:?}", t);
    }
}

#[test]
fn digits_and_their_characters() {
    assert_eq!(digit(0), '0');
    assert_eq!(digit(7), '7');
    assert_eq!(digit(9), '9');
    assert_eq!(digit_value('0'), Some(0));
    assert_eq!(digit_value('9'), Some(9));
    assert_eq!(digit_value('a'), None);
    assert_eq!(digit_value('/'), None);
    assert_eq!(digit_value(':'), None);
    assert_eq!(digit_value('٣'), None);
}

#[test]
fn decimal_string_writes_numbers_without_leading_zeros() {
    assert_eq!(decimal_string(0), "0");
    assert_eq!(decimal_string(7), "7");
    assert_eq!(decimal_string(10), "10");
    assert_eq!(decimal_string(1000), "1000");
    assert_eq!(decimal_string(90210), "90210");
    assert_eq!(decimal_string(u64::MAX), "18446744073709551615");
}

#[test]
fn decimal_string_agrees_with_the_standard_library() {
    let mut n: u64 = 0;
    while n < 3000 {
        assert_eq!(decimal_string(n), n.to_string());
        n += 1;
    }
    let mut p: u64 = 1;
    while p < u64::MAX / 7 {
        assert_eq!(decimal_string(p), p.to_string());
        assert_eq!(decimal_string(p - 1), (p - 1).to_string());
        p *= 7;
    }
}

#[test]
fn signed_decimal_string_puts_a_minus_before_negative_numbers() {
    assert_eq!(signed_decimal_string(0), "0");
    assert_eq!(signed_decimal_string(42), "42");
    assert_eq!(signed_decimal_string(-1), "-1");
    assert_eq!(signed_decimal_string(-120), "-120");
    assert_eq!(signed_decimal_string(i64::MAX), "9223372036854775807");
    assert_eq!(signed_decimal_string(i64::MIN), "-9223372036854775808");
}

fn read_u32(s: &str) -> Option<u32> {
    let c = chars(s);
    parse_u32(&c, 0, c.len())
}

fn read_u64(s: &str) -> Option<u64> {
    let c = chars(s);
    parse_u64(&c, 0, c.len())
}

#[test]
fn parse_u32_reads_plain_numbers() {
    assert_eq!(read_u32("0"), Some(0));
    assert_eq!(read_u32("1000"), Some(1000));
    assert_eq!(read_u32("007"), Some(7));
    assert_eq!(read_u32("+5"), Some(5));
    assert_eq!(read_u32("4294967295"), Some(u32::MAX));
    assert_eq!(read_u32("00000000000000000000000000000001"), Some(1));
}

#[test]
fn parse_u32_refuses_what_is_no_number() {
    assert_eq!(read_u32(""), None);
    assert_eq!(read_u32("+"), None);
    assert_eq!(read_u32("-"), None);
    assert_eq!(read_u32("-5"), None);
    assert_eq!(read_u32("++5"), None);
    assert_eq!(read_u32("5+"), None);
    assert_eq!(read_u32(" 5"), None);
    assert_eq!(read_u32("5 "), None);
    assert_eq!(read_u32("12a"), None);
    assert_eq!(read_u32("x"), None);
    assert_eq!(read_u32("1.5"), None);
}

#[test]
fn parse_u32_refuses_numbers_that_do_not_fit() {
    assert_eq!(read_u32("4294967296"), None);
    assert_eq!(read_u32("99999999999"), None);
    assert_eq!(read_u32("18446744073709551616"), None);
    assert_eq!(read_u32("4294967296x"), None);
}

#[test]
fn parse_u64_goes_up_to_its_limit() {
    assert_eq!(read_u64("18446744073709551615"), Some(u64::MAX));
    assert_eq!(read_u64("18446744073709551616"), None);
    assert_eq!(read_u64("28446744073709551615"), None);
    assert_eq!(read_u64("184467440737095516150"), None);
    assert_eq!(read_u64("16384"), Some(16384));
}

#[test]
fn parse_agrees_with_the_standard_library() {
    for s in [
        "", "0", "1", "+1", "-1", "+", "-", "00", "+00", "12345", "4294967295", "4294967296",
        "42949672950", "18446744073709551615", "18446744073709551616", "1 ", " 1", "1_000", "٣",
        "0x10", "1e3", "+-1", "9999999999999999999", "99999999999999999999",
    ] {
        assert_eq!(read_u32(s), s.parse::<u32>().ok(), "{:?}", s);
        assert_eq!(read_u64(s), s.parse::<u64>().ok(), "{:?}", s);
    }
}

#[test]
fn parse_reads_only_the_range() {
    let c = chars("uid=1000;");
    assert_eq!(parse_u32(&c, 4, 8), Some(1000));
    assert_eq!(parse_u32(&c, 4, 9), None);
    assert_eq!(parse_u32(&c, 3, 8), None);
    assert_eq!(parse_u32(&c, 4, 4), None);
}

#[test]
fn lines_that_were_written_out_are_read_back() {
    let written = vec!["first", "", "  third line ", "a\rb", "=\"x\""];
    let mut text = String::new();
    for line in written.iter() {
        text.push_str(line);
        text.push('\n');
    }
    assert_eq!(lines_of(&text), written);
}

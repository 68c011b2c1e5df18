use lsfbot::text::decimal_text;
use lsfbot::text::is_white_space;
use lsfbot::text::parse_number;
use lsfbot::text::replace;
use lsfbot::text::same_text;
use lsfbot::text::split_first_two;
use lsfbot::text::trim;
use lsfbot::text::trim_end_matches;
use lsfbot::text::trim_start_matches;
use lsfbot::text::two_digit_text;

#[test]
fn trim_removes_surrounding_white_space() {
    assert_eq!(trim("  \t a b \n"), "a b");
    assert_eq!(trim("\u{a0}x\u{2003}"), "x");
    assert_eq!(trim("   "), "");
    assert_eq!(trim(""), "");
    assert_eq!(trim("äö"), "äö");
}

#[test]
fn suffixes_are_removed_one_after_another() {
    assert_eq!(trim_end_matches("name - x - x", " - x"), "name");
    assert_eq!(trim_end_matches("name - x ", " - x"), "name - x ");
    assert_eq!(trim_end_matches("xxx", "x"), "");
    assert_eq!(trim_end_matches("abc", ""), "abc");
    assert_eq!(trim_end_matches("ab", "abc"), "ab");
}

#[test]
fn prefixes_are_removed_one_after_another() {
    assert_eq!(trim_start_matches("ababc", "ab"), "c");
    assert_eq!(trim_start_matches("cab", "ab"), "cab");
    assert_eq!(trim_start_matches("abc", ""), "abc");
}

#[test]
fn every_copy_is_replaced() {
    assert_eq!(replace("a&nbsp;b&nbsp;&nbsp;c", "&nbsp;", " "), "a b  c");
    assert_eq!(replace("aaa", "aa", "b"), "ba");
    assert_eq!(replace("abc", "", "x"), "abc");
    assert_eq!(replace("abc", "abcd", "x"), "abc");
    assert_eq!(replace("", "a", "x"), "");
}

#[test]
fn text_is_cut_at_the_separator() {
    assert_eq!(split_first_two("10:00 bis 11:30", " bis "), Some(("10:00", "11:30")));
    assert_eq!(split_first_two("a bis b bis c", " bis "), Some(("a", "b")));
    assert_eq!(split_first_two(" bis ", " bis "), Some(("", "")));
    assert_eq!(split_first_two("10:00", " bis "), None);
    assert_eq!(split_first_two("10:00 bis", " bis "), None);
    assert_eq!(split_first_two("abc", ""), None);
}

#[test]
fn texts_are_compared_by_their_characters() {
    assert!(same_text("Gruppe 1", "Gruppe 1"));
    assert!(!same_text("Gruppe 1", "Gruppe 2"));
    assert!(!same_text("Gruppe 1", "Gruppe 1 "));
    assert!(same_text("", ""));
}

#[test]
fn numbers_are_written_in_decimal() {
    assert_eq!(decimal_text(0), "0");
    assert_eq!(decimal_text(7), "7");
    assert_eq!(decimal_text(10), "10");
    assert_eq!(decimal_text(1234567890), "1234567890");
    assert_eq!(decimal_text(u64::MAX), "18446744073709551615");
    assert_eq!(two_digit_text(0), "00");
    assert_eq!(two_digit_text(9), "09");
    assert_eq!(two_digit_text(23), "23");
    assert_eq!(two_digit_text(123), "23");
}

#[test]
fn numbers_are_read_from_decimal() {
    assert_eq!(parse_number("0"), Some(0));
    assert_eq!(parse_number("30"), Some(30));
    assert_eq!(parse_number("+30"), Some(30));
    assert_eq!(parse_number("007"), Some(7));
    assert_eq!(parse_number("18446744073709551615"), Some(u64::MAX));
    assert_eq!(parse_number("18446744073709551616"), None);
    assert_eq!(parse_number("99999999999999999999999"), None);
    assert_eq!(parse_number(""), None);
    assert_eq!(parse_number("+"), None);
    assert_eq!(parse_number("-1"), None);
    assert_eq!(parse_number("1 "), None);
    assert_eq!(parse_number("1_0"), None);
    assert_eq!(parse_number("off"), None);
    for n in [0u64, 1, 9, 10, 99, 100, 4711, u64::MAX] {
        assert_eq!(parse_number(&decimal_text(n)), Some(n));
        assert_eq!(parse_number(&n.to_string()), n.to_string().parse::<u64>().ok());
    }
}

#[test]
fn white_space_is_what_unicode_says() {
    let mut white = 0;
    for n in 0..=0x10FFFFu32 {
        if let Some(c) = char::from_u32(n) {
            assert_eq!(is_white_space(c), c.is_whitespace());
            if is_white_space(c) {
                white += 1;
            }
        }
    }
    assert_eq!(white, 25);
    assert!(is_white_space(' '));
    assert!(is_white_space('\u{a0}'));
    assert!(!is_white_space('a'));
    assert!(!is_white_space('\u{200b}'));
}

#[test]
fn trim_agrees_with_the_standard_library() {
    for text in ["", " ", "\t AIN1 Mathematik 1 - Einzelansicht\r\n", "\u{3000}x y\u{85}", "x"] {
        assert_eq!(trim(text), text.trim());
    }
}

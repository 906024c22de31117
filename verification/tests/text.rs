use target_cloudberry::text::{
    contains_char, contains_number, is_text_less, join, parse_u64, read_number, render_decimal,
    render_hexadecimal, render_signed, same_text, same_texts, show_numbers, show_option,
    show_optional_number, show_optional_text, show_text, show_texts, show_truth, starts_with,
};

fn texts(values: &[&str]) -> Vec<String> {
    values.iter().map(|value| (*value).to_owned()).collect()
}

#[test]
fn numbers_are_written_without_leading_zeros() {
    for value in [0, 7, 10, 99, 100, 18_446_744_073_709_551_615] {
        assert_eq!(render_decimal(value), format!("{value}"));
        assert_eq!(render_hexadecimal(value), format!("{value:X}"));
        assert_eq!(parse_u64(&render_decimal(value)), Some(value));
    }
    for value in [i64::MIN, -10, -1, 0, 1, i64::MAX] {
        assert_eq!(render_signed(value), format!("{value}"));
    }
}

#[test]
fn numbers_are_read_as_the_standard_library_reads_them() {
    for text in [
        "", "0", "007", "18446744073709551615", "18446744073709551616", "12x", "+5", "-1", " 1", "+",
    ] {
        assert_eq!(parse_u64(text), text.parse::<u64>().ok(), "{text}");
    }
}

#[test]
fn digits_are_read_up_to_a_bound() {
    let digits: Vec<char> = "xFFz".chars().collect();
    assert_eq!(read_number(&digits, 1, 3, 16, 255), Some(255));
    assert_eq!(read_number(&digits, 1, 3, 16, 254), None);
    assert_eq!(read_number(&digits, 1, 4, 16, u64::MAX), None);
    assert_eq!(read_number(&digits, 1, 1, 16, u64::MAX), None);
}

#[test]
fn texts_are_compared_by_their_characters() {
    assert!(same_text("", ""));
    assert!(same_text("äb", "äb"));
    assert!(!same_text("ab", "abc"));
    assert!(same_texts(&texts(&["a", "b"]), &texts(&["a", "b"])));
    assert!(!same_texts(&texts(&["a"]), &texts(&["a", "b"])));
    assert!(!same_texts(&texts(&["b", "a"]), &texts(&["a", "b"])));
}

#[test]
fn text_order_is_the_order_of_strings() {
    let samples = ["", "a", "aa", "ab", "b", "B", "é", "z", "\u{10000}", "\u{ffff}"];
    for left in samples {
        for right in samples {
            assert_eq!(is_text_less(left, right), left < right, "{left:?} {right:?}");
        }
    }
}

#[test]
fn texts_are_searched() {
    assert!(contains_char("a\0b", '\0'));
    assert!(!contains_char("", 'a'));
    for (text, pattern) in [("abc", "bc"), ("abc", "bd"), ("abc", ""), ("", "a"), ("aab", "ab")] {
        assert_eq!(contains_number(text, pattern), text.contains(pattern));
        assert_eq!(starts_with(text, pattern), text.starts_with(pattern));
    }
    for (text, found) in [("v2.1", true), ("v2.1.0", true), ("v2.10", false), ("v2.10 v2.1-rc", true)] {
        assert_eq!(contains_number(text, "v2.1"), found, "{text}");
    }
    assert_eq!(join(&texts(&["a", "", "c"]), ", "), "a, , c");
    assert_eq!(join(&Vec::new(), ", "), "");
}

#[test]
fn values_are_shown_as_their_debug_form() {
    for value in ["", "plain", "qu\"ote", "line\nbreak", "back\\slash", "é\u{7f}"] {
        assert_eq!(show_text(value), format!("{value:?}"));
        assert_eq!(show_optional_text(Some(value)), format!("{:?}", Some(value)));
    }
    assert_eq!(show_optional_text(None), format!("{:?}", None::<&str>));
    assert_eq!(show_option(Some("x".to_owned())), "Some(x)");
    assert_eq!(show_option(None), "None");
    for list in [texts(&[]), texts(&["a"]), texts(&["a\"", "b"])] {
        assert_eq!(show_texts(&list), format!("{list:?}"));
    }
    for list in [vec![], vec![0], vec![-1, 2, i32::MIN]] {
        assert_eq!(show_numbers(&list), format!("{list:?}"));
    }
    assert_eq!(show_optional_number(Some(-5)), format!("{:?}", Some(-5i64)));
    assert_eq!(show_optional_number(None), "None");
    assert_eq!(show_truth(true), "true");
    assert_eq!(show_truth(false), "false");
}

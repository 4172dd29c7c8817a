use text_position_rs::TextPosition;
use text_position_rs::Utf8Position;

fn pos_of(s: &str) -> Utf8Position {
    Utf8Position::from_str(s)
}

#[test]
fn utf8_position_test_from_str_empty() {
    assert_eq!(Utf8Position::from_str(""), Utf8Position::zero());
}

#[test]
fn utf8_position_test_from_str_ascii_single_line() {
    assert_eq!(Utf8Position::from_str("Hello, world!"), Utf8Position::new(0, 13));
}

#[test]
fn utf8_position_test_from_str_ascii_multiple_line() {
    assert_eq!(Utf8Position::from_str("12345\n1234567\n12345"), Utf8Position::new(2, 5));
}

#[test]
fn utf8_position_test_from_str_unicode() {
    assert_eq!(Utf8Position::from_str("🐧"), Utf8Position::new(0, 4));
}

#[test]
fn utf8_position_test_from_str_crlf() {
    assert_eq!(Utf8Position::from_str("\r\n"), Utf8Position::new(1, 0));
}

#[test]
fn utf8_position_test_add_single_line() {
    assert_eq!(pos_of("12345").add(pos_of("6789")), Utf8Position::new(0, 9))
}

#[test]
fn utf8_position_test_add_multiple_line() {
    assert_eq!(pos_of("12345\n12345").add(pos_of("67\n12345")), Utf8Position::new(2, 5))
}

#[test]
fn utf8_position_test_display_zero() {
    assert_eq!(Utf8Position::zero().display_string(), "1:1");
}

#[test]
fn utf8_position_test_display_nonzero() {
    assert_eq!(Utf8Position::new(3, 1).display_string(), "4:2");
}

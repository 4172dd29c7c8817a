use text_position_rs::CompositePosition;
use text_position_rs::TextPosition;

fn pos_of(s: &str) -> CompositePosition {
    CompositePosition::from_str(s)
}

#[test]
fn composite_position_test_from_str_empty() {
    assert_eq!(pos_of(""), CompositePosition::zero());
}

#[test]
fn composite_position_test_from_str_ascii_single_line() {
    assert_eq!(pos_of("Hello, world!"), CompositePosition::new(13, 0, 13, 13));
}

#[test]
fn composite_position_test_from_str_ascii_multiple_line() {
    assert_eq!(pos_of("12345\n1234567\n12345"), CompositePosition::new(19, 2, 5, 5));
}

#[test]
fn composite_position_test_from_str_unicode() {
    assert_eq!(
        pos_of("いろはにほへと\nちりぬるを\nわかよたれそ\nつねならむ"),
        CompositePosition::new(72, 3, 15, 15)
    );
}

#[test]
fn composite_position_test_from_str_surrogate_pair() {
    assert_eq!(pos_of("🐧"), CompositePosition::new(4, 0, 4, 2));
}

#[test]
fn composite_position_test_from_str_crlf() {
    assert_eq!(pos_of("\r\n"), CompositePosition::new(2, 1, 0, 0));
}

#[test]
fn composite_position_test_add_single_line() {
    assert_eq!(pos_of("12345").add(pos_of("6789")), CompositePosition::new(9, 0, 9, 9))
}

#[test]
fn composite_position_test_add_multiple_line() {
    assert_eq!(pos_of("12345\n12345").add(pos_of("67\n12345")), CompositePosition::new(19, 2, 5, 5))
}

#[test]
fn composite_position_test_saturating_sub_minus_row() {
    assert_eq!(
        pos_of("\n\n\n\n123456").saturating_sub(pos_of("\n\n\n\n\n1")),
        CompositePosition::zero()
    );
}

#[test]
fn composite_position_test_saturating_sub_minus_column() {
    assert_eq!(
        pos_of("\n\n\n\n123456").saturating_sub(pos_of("\n\n\n\n1234567")),
        CompositePosition::zero()
    );
}

#[test]
fn composite_position_test_saturating_sub_equal() {
    let pos = pos_of("\n\n\n\n123456");
    assert_eq!(pos.saturating_sub(pos), CompositePosition::zero());
}

#[test]
fn composite_position_test_saturating_sub_plus_row() {
    assert_eq!(pos_of("\n\n\n12\n123456").saturating_sub(pos_of("\n\n\n12")), pos_of("\n123456"));
}

#[test]
fn composite_position_test_saturating_sub_plus_column() {
    assert_eq!(pos_of("\n\n\n\n123456").saturating_sub(pos_of("\n\n\n\n1")), pos_of("23456"));
}

#[test]
fn composite_position_test_display_zero() {
    assert_eq!(CompositePosition::zero().display_string(), "1:1");
}

#[test]
fn composite_position_test_display_nonzero() {
    assert_eq!(pos_of("\n\n\nxx").display_string(), "4:3");
}

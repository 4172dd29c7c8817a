use text_position_rs::TextPosition;
use text_position_rs::TextRange;
use text_position_rs::Utf8Position;

fn pos_of(s: &str) -> Utf8Position {
    Utf8Position::from_str(s)
}

#[test]
fn range_test_display_zero() {
    assert_eq!(TextRange::<Utf8Position>::zero().display_string(), "1.1-1.1");
}

#[test]
fn range_test_display_nonzero() {
    assert_eq!(
        TextRange::from_bounds(pos_of("Hello, "), pos_of("Hello, world")).display_string(),
        "1.8-1.13"
    );
}

use text_position_rs::CompositePosition;
use text_position_rs::TextPosition;
use text_position_rs::TextRange;
use text_position_rs::Utf16Position;
use text_position_rs::Utf8Index;
use text_position_rs::Utf8Position;

#[test]
fn concat_law_utf8_index() {
    let a = Utf8Index::from_str("ab");
    let b = Utf8Index::from_str("c\nd");
    assert_eq!(a.add(b), Utf8Index::from_str("abc\nd"));
    assert_eq!(a.add(b), Utf8Index::new(5));
}

#[test]
fn concat_law_utf16_position() {
    let a = Utf16Position::from_str("ab");
    let b = Utf16Position::from_str("c\nd");
    assert_eq!(a.add(b), Utf16Position::from_str("abc\nd"));
    assert_eq!(a.add(b), Utf16Position::new(1, 1));
}

#[test]
fn concat_law_utf8_position() {
    let a = Utf8Position::from_str("a\nb");
    let b = Utf8Position::from_str("c\nd");
    assert_eq!(a.add(b), Utf8Position::from_str("a\nbc\nd"));
    let a = Utf8Position::from_str("12345");
    let b = Utf8Position::from_str("\n");
    assert_eq!(a.add(b), Utf8Position::from_str("12345\n"));
    assert_eq!(a.add(b), Utf8Position::new(1, 0));
}

#[test]
fn concat_law_composite_position() {
    let a = CompositePosition::from_str("ab");
    let b = CompositePosition::from_str("c\nd");
    let sum = a.add(b);
    let whole = CompositePosition::from_str("abc\nd");
    assert_eq!(
        (sum.index, sum.row, sum.column8, sum.column16),
        (whole.index, whole.row, whole.column8, whole.column16)
    );
}

#[test]
fn zero_is_identity_utf8_index() {
    let p = Utf8Index::new(7);
    assert_eq!(Utf8Index::zero().add(p), p);
    assert_eq!(p.add(Utf8Index::zero()), p);
}

#[test]
fn zero_is_identity_utf16_position() {
    let p = Utf16Position::new(4, 6);
    assert_eq!(Utf16Position::zero().add(p), p);
    assert_eq!(p.add(Utf16Position::zero()), p);
}

#[test]
fn zero_is_identity_utf8_position() {
    let p = Utf8Position::new(4, 6);
    assert_eq!(Utf8Position::zero().add(p), p);
    assert_eq!(p.add(Utf8Position::zero()), p);
}

#[test]
fn zero_is_identity_composite_position() {
    let p = CompositePosition::new(5, 1, 3, 3);
    let q = CompositePosition::zero().add(p);
    let r = p.add(CompositePosition::zero());
    assert_eq!((q.index, q.row, q.column8, q.column16), (5, 1, 3, 3));
    assert_eq!((r.index, r.row, r.column8, r.column16), (5, 1, 3, 3));
}

#[test]
fn sub_is_partial_inverse_of_add_utf8_index() {
    let p = Utf8Index::new(9);
    let q = Utf8Index::new(4);
    assert_eq!(q.add(p.saturating_sub(q)), p);
    assert_eq!(q.saturating_sub(p), Utf8Index::zero());
}

#[test]
fn sub_is_partial_inverse_of_add_utf16_position() {
    let p = Utf16Position::new(4, 6);
    let q = Utf16Position::new(2, 9);
    assert_eq!(q.add(p.saturating_sub(q)), p);
    assert_eq!(q.saturating_sub(p), Utf16Position::zero());
}

#[test]
fn sub_is_partial_inverse_of_add_utf8_position() {
    let p = Utf8Position::new(4, 6);
    let q = Utf8Position::new(2, 9);
    assert_eq!(q.add(p.saturating_sub(q)), p);
    let p = Utf8Position::new(1, 3);
    let q = Utf8Position::new(1, 1);
    assert_eq!(q.add(p.saturating_sub(q)), p);
    assert_eq!(q.saturating_sub(p), Utf8Position::zero());
}

#[test]
fn from_bounds_ordered_keeps_start() {
    let start = Utf8Index::new(2);
    let end = Utf8Index::new(8);
    let range = TextRange::from_bounds(start, end);
    assert_eq!(range.start(), start);
    assert_eq!(range.end(), end);
    assert!(!range.is_empty());
}

#[test]
fn from_bounds_inverted_is_empty() {
    let start = Utf16Position::new(3, 1);
    let end = Utf16Position::new(1, 7);
    let range = TextRange::from_bounds(start, end);
    assert_eq!(range.start(), start);
    assert!(range.is_empty());
}

#[test]
fn extend_with_self_changes_nothing() {
    let range = TextRange::from_bounds(Utf8Index::new(2), Utf8Index::new(8));
    assert_eq!(range.extend(range), range);
    let range = TextRange::from_bounds(Utf16Position::new(1, 2), Utf16Position::new(3, 4));
    assert_eq!(range.extend(range), range);
}

#[test]
fn extend_commutes() {
    let first = TextRange::from_bounds(Utf8Index::new(2), Utf8Index::new(4));
    let second = TextRange::from_bounds(Utf8Index::new(6), Utf8Index::new(8));
    let extended = TextRange::from_bounds(Utf8Index::new(2), Utf8Index::new(8));
    assert_eq!(first.extend(second), extended);
    assert_eq!(second.extend(first), extended);
}

#[test]
fn covers_is_reflexive() {
    let range = TextRange::from_bounds(Utf8Index::new(2), Utf8Index::new(8));
    assert!(range.covers(range));
}

#[test]
fn covers_is_transitive() {
    let outer = TextRange::from_bounds(Utf8Index::new(0), Utf8Index::new(10));
    let middle = TextRange::from_bounds(Utf8Index::new(2), Utf8Index::new(8));
    let inner = TextRange::from_bounds(Utf8Index::new(3), Utf8Index::new(5));
    assert!(outer.covers(middle));
    assert!(middle.covers(inner));
    assert!(outer.covers(inner));
    assert!(!inner.covers(outer));
}

#[test]
fn contains_inclusive_includes_both_boundaries() {
    let range = TextRange::from_bounds(Utf8Position::new(2, 4), Utf8Position::new(4, 8));
    assert!(range.contains_inclusive(Utf8Position::new(3, 3)));
    assert!(range.contains_inclusive(Utf8Position::new(2, 4)));
    assert!(range.contains_inclusive(Utf8Position::new(4, 8)));
    assert!(!range.contains_inclusive(Utf8Position::new(2, 3)));
    assert!(!range.contains_inclusive(Utf8Position::new(4, 9)));
    let empty = TextRange::empty(Utf8Position::new(1, 5));
    assert!(empty.contains_inclusive(empty.end()));
}

#[test]
fn range_constructors() {
    let index = Utf8Index::new(3);
    let len = Utf8Index::new(4);
    let range = TextRange::at(index, len);
    assert_eq!(range.start(), index);
    assert_eq!(range.end(), Utf8Index::new(7));
    assert!(TextRange::empty(index).is_empty());
    assert_eq!(TextRange::empty(index).start(), index);
    assert_eq!(TextRange::up_to(len).start(), Utf8Index::zero());
    assert_eq!(TextRange::up_to(len).end(), len);
}

#[test]
fn to_start_and_to_end_point_at_the_boundaries() {
    let range = TextRange::at(Utf8Index::new(3), Utf8Index::new(4));
    assert!(range.to_start().is_empty());
    assert_eq!(range.to_start().start(), Utf8Index::new(3));
    assert!(range.to_end().is_empty());
    assert_eq!(range.to_end().start(), Utf8Index::new(7));
}

#[test]
fn from_char_advances_each_measure() {
    assert_eq!(Utf8Index::from_char('a'), Utf8Index::new(1));
    assert_eq!(Utf8Index::from_char('🐧'), Utf8Index::new(4));
    assert_eq!(Utf8Position::from_char('\n'), Utf8Position::new(1, 0));
    assert_eq!(Utf8Position::from_char('é'), Utf8Position::new(0, 2));
    assert_eq!(Utf16Position::from_char('🐧'), Utf16Position::new(0, 2));
    assert_eq!(CompositePosition::from_char('\n'), CompositePosition::new(1, 1, 0, 0));
    assert_eq!(CompositePosition::from_char('🐧'), CompositePosition::new(4, 0, 4, 2));
}

#[test]
fn composite_projections_are_lossless() {
    let pos = CompositePosition::from_str("いろは\n🐧ab");
    assert_eq!(pos.to_utf8_index(), Utf8Index::from_str("いろは\n🐧ab"));
    assert_eq!(pos.to_utf8_position(), Utf8Position::from_str("いろは\n🐧ab"));
    assert_eq!(pos.to_utf16_position(), Utf16Position::from_str("いろは\n🐧ab"));
}

#[test]
fn composite_equality_goes_by_index() {
    // The byte index is the canonical measure: rows and columns do not take
    // part in comparison.
    assert_eq!(CompositePosition::new(5, 0, 5, 5), CompositePosition::new(5, 1, 2, 2));
    assert_ne!(CompositePosition::new(5, 0, 5, 5), CompositePosition::new(6, 0, 5, 5));
    assert!(CompositePosition::new(5, 9, 9, 9) < CompositePosition::new(6, 0, 0, 0));
}

#[test]
fn display_multi_digit() {
    assert_eq!(Utf8Position::new(122, 9).display_string(), "123:10");
    assert_eq!(Utf16Position::new(0, 99).display_string(), "1:100");
    assert_eq!(CompositePosition::new(205, 19, 204, 102).display_string(), "20:205");
    assert_eq!(Utf8Index::new(0).display_string(), "0");
    assert_eq!(Utf8Index::new(1050).display_string(), "1050");
}

#[test]
fn display_byte_range() {
    let range = TextRange::from_bounds(Utf8Index::new(2), Utf8Index::new(8));
    assert_eq!(range.display_string(), "2..8");
    assert_eq!(TextRange::<Utf8Index>::zero().display_string(), "0..0");
}

#[test]
fn display_utf16_and_composite_ranges() {
    let range = TextRange::from_bounds(Utf16Position::new(0, 7), Utf16Position::new(2, 3));
    assert_eq!(range.display_string(), "1.8-3.4");
    let range = TextRange::from_bounds(
        CompositePosition::from_str("Hello, "),
        CompositePosition::from_str("Hello, world"),
    );
    assert_eq!(range.display_string(), "1.8-1.13");
}

#[test]
fn add_assign_matches_add() {
    let mut index = Utf8Index::from_str("12345");
    index.add_assign(Utf8Index::from_str("6789"));
    assert_eq!(index, Utf8Index::new(9));
    let mut pos = Utf16Position::from_str("12345\n12345");
    pos.add_assign(Utf16Position::from_str("67\n12345"));
    assert_eq!(pos, Utf16Position::new(2, 5));
    let mut pos = CompositePosition::from_str("12345");
    pos.add_assign(CompositePosition::from_str("6789"));
    assert_eq!(pos, CompositePosition::new(9, 0, 9, 9));
    let mut pos = Utf8Position::from_str("a\nb");
    pos.add_assign(Utf8Position::from_str("c"));
    assert_eq!(pos, Utf8Position::new(1, 2));
}

#[test]
fn saturating_sub_at_origin() {
    assert_eq!(Utf8Index::zero().saturating_sub(Utf8Index::new(9)), Utf8Index::zero());
    assert_eq!(
        Utf16Position::zero().saturating_sub(Utf16Position::new(0, 1)),
        Utf16Position::zero()
    );
    assert_eq!(
        CompositePosition::zero().saturating_sub(CompositePosition::new(1, 0, 1, 1)),
        CompositePosition::zero()
    );
}

#[test]
fn utf8_position_saturating_sub() {
    // Same row subtracts columns; a crossed row keeps the column.
    let p = Utf8Position::from_str("\n\n\n\n123456");
    let q = Utf8Position::from_str("\n\n\n\n1");
    assert_eq!(p.saturating_sub(q), Utf8Position::from_str("23456"));
    assert_eq!(q.saturating_sub(p), Utf8Position::zero());
    assert_eq!(
        Utf8Position::from_str("\n\n\n12\n123456").saturating_sub(Utf8Position::from_str("\n\n\n12")),
        Utf8Position::from_str("\n123456")
    );
}

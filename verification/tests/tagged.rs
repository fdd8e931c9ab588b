use zero_schema::__private::{checked_payload_range, checked_tagged_ranges};
use zero_schema::LayoutError;

#[test]
fn tag_range_overflow_precedes_bounds() {
    assert_eq!(checked_tagged_ranges(1, usize::MAX, 2, 0, 0), Err(LayoutError::OffsetOverflow));
}

#[test]
fn selected_ranges_are_exact() {
    assert_eq!(checked_tagged_ranges(12, 0, 1, 4, 8).unwrap(), (0..1, 4..12));
}

#[test]
fn payload_range_is_checked_after_the_tag_range() {
    assert_eq!(
        checked_tagged_ranges(12, 0, 1, 8, 8),
        Err(LayoutError::InsufficientBytes { required: 16, actual: 12 })
    );
    assert_eq!(checked_payload_range(12, 4, 8).unwrap(), 4..12);
}

use zero_schema::__private::{checked_element_offset, checked_element_range};
use zero_schema::LayoutError;

#[test]
fn element_range_checks_multiplication_before_bounds() {
    assert_eq!(checked_element_range(1, usize::MAX, 2, 1), Err(LayoutError::OffsetOverflow));
}

#[test]
fn element_range_uses_wire_stride() {
    assert_eq!(checked_element_range(12, 2, 4, 3).unwrap(), 8..11);
}

#[test]
fn element_offset_reports_only_multiplication_overflow() {
    assert_eq!(checked_element_offset(3, 4), Ok(12));
    assert_eq!(checked_element_offset(usize::MAX, 2), Err(LayoutError::OffsetOverflow));
    assert_eq!(
        checked_element_range(12, 3, 4, 1),
        Err(LayoutError::InsufficientBytes { required: 13, actual: 12 })
    );
}

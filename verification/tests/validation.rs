use zero_schema::{
    LayoutDescriptor, TypeKind, ValidationContext, ValidationFailure, ValidationOperation,
};

fn layout() -> &'static LayoutDescriptor {
    Box::leak(Box::new(LayoutDescriptor::__new(
        "Record",
        TypeKind::Struct,
        4,
        4,
        4,
        &[],
        &[],
        &[],
        &[],
    )))
}

#[test]
fn field_context_exposes_containing_layout_and_operation() {
    let layout = layout();
    for operation in [ValidationOperation::Decode, ValidationOperation::Encode] {
        let context = ValidationContext::__field(layout, "count", operation);
        assert!(core::ptr::eq(context.layout(), layout));
        assert_eq!(context.field(), Some("count"));
        assert_eq!(context.variant(), None);
        assert_eq!(context.operation(), operation);
    }
}

#[test]
fn whole_context_exposes_optional_selected_variant() {
    let layout = layout();
    let decode = ValidationContext::__whole(layout, None, ValidationOperation::Decode);
    assert!(core::ptr::eq(decode.layout(), layout));
    assert_eq!(decode.field(), None);
    assert_eq!(decode.variant(), None);
    assert_eq!(decode.operation(), ValidationOperation::Decode);

    let encode = ValidationContext::__whole(layout, Some("Selected"), ValidationOperation::Encode);
    assert!(core::ptr::eq(encode.layout(), layout));
    assert_eq!(encode.field(), None);
    assert_eq!(encode.variant(), Some("Selected"));
    assert_eq!(encode.operation(), ValidationOperation::Encode);
}

#[test]
fn validation_failure_exposes_stable_leaf() {
    let failure = ValidationFailure::new(17, "rejected");
    assert_eq!(failure.code(), 17);
    assert_eq!(failure.message(), "rejected");
    assert_eq!(failure.describe(), "rejected (validation code 17)");
}

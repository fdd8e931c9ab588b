use zero_schema::{
    chain_path_string, error_path_string, format_error_chain, format_schema_error, ErrorLink,
    ErrorPathSegment, LayoutError,
};

#[test]
fn layout_display_is_stable() {
    assert_eq!(
        LayoutError::IncorrectSize { expected: 8, actual: 3 }.message(),
        "incorrect size: expected 8 bytes, got 3"
    );
    assert_eq!(
        LayoutError::InsufficientBytes { required: 9, actual: 4 }.message(),
        "insufficient bytes: required 9, got 4"
    );
    assert_eq!(
        LayoutError::Misaligned { required: 8, address: 42 }.message(),
        "misaligned address 0x2a: required alignment 8"
    );
    assert_eq!(LayoutError::OffsetOverflow.message(), "byte-range offset overflow");
}

const SEGMENTS: [ErrorPathSegment; 2] =
    [ErrorPathSegment::Field("payload"), ErrorPathSegment::Variant("File")];

const LEAF: ErrorLink = ErrorLink {
    schema: "Child",
    segment: Some(ErrorPathSegment::Variant("File")),
    leaf: "deep failure",
};

const ROOT: [ErrorLink; 2] = [
    ErrorLink {
        schema: "Message",
        segment: Some(ErrorPathSegment::Field("payload")),
        leaf: "unused root leaf",
    },
    LEAF,
];

#[test]
fn schema_display_walks_path_once_and_uses_deepest_leaf() {
    assert_eq!(format_error_chain(&ROOT), "Message.payload.File: deep failure");
}

#[test]
fn allocated_path_omits_leaf_and_matches_display_prefix() {
    let path = chain_path_string(&ROOT);
    assert_eq!(path, "Message.payload.File");
    assert_eq!(format_error_chain(&ROOT), format!("{path}: deep failure"));
    assert_eq!(error_path_string("Message", &SEGMENTS), path);
}

#[test]
fn chains_skip_links_without_segments() {
    let chain = [
        ErrorLink { schema: "Outer", segment: None, leaf: "outer" },
        ErrorLink { schema: "Inner", segment: Some(ErrorPathSegment::Field("x")), leaf: "inner" },
    ];
    assert_eq!(format_error_chain(&chain), "Outer.x: inner");
    assert_eq!(format_schema_error("Outer", &[], "leaf"), "Outer: leaf");
}

#[test]
fn path_without_segments_is_the_schema_name() {
    assert_eq!(error_path_string("Root", &[]), "Root");
    assert_eq!(format_schema_error("Root", &[], "leaf"), "Root: leaf");
}

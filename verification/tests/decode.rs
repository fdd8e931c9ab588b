use zero_schema::{DecodeInput, LayoutError};

struct Aligned {
    _align: [u64; 0],
    bytes: [u8; 24],
}

impl Aligned {
    fn new() -> Self {
        Aligned { _align: [], bytes: [0; 24] }
    }
}

#[test]
fn length_errors_precede_alignment() {
    let storage = Aligned::new();
    let misaligned = &storage.bytes[1..];
    assert_eq!(
        DecodeInput::<u64>::from_exact(&misaligned[..7]).err().unwrap(),
        LayoutError::IncorrectSize { expected: 8, actual: 7 }
    );
    assert_eq!(
        DecodeInput::<u64>::from_prefix(&misaligned[..7]).err().unwrap(),
        LayoutError::InsufficientBytes { required: 8, actual: 7 }
    );
    assert!(matches!(
        DecodeInput::<u64>::from_exact(&misaligned[..8]),
        Err(LayoutError::Misaligned { required: 8, .. })
    ));
}

#[test]
fn size_only_errors_on_aligned_storage() {
    let storage = Aligned::new();
    assert_eq!(
        DecodeInput::<u64>::from_exact(&storage.bytes[..9]).err().unwrap(),
        LayoutError::IncorrectSize { expected: 8, actual: 9 }
    );
}

#[test]
fn subrange_overflow_precedes_bounds_and_input_is_reusable() {
    let storage = Aligned::new();
    let input = DecodeInput::<u64>::from_exact(&storage.bytes[..8]).unwrap();
    assert_eq!(input.subrange::<u64>(usize::MAX).err().unwrap(), LayoutError::OffsetOverflow);

    let first = input.subrange::<u32>(0).unwrap();
    let second = input.subrange::<u32>(4).unwrap();
    assert_eq!(first.bytes().len(), 4);
    assert_eq!(second.bytes().len(), 4);
}

#[test]
fn prefix_retains_exact_wire_bytes_and_leaves_reusable_remainder() {
    let storage = Aligned::new();
    let source = &storage.bytes[..16];
    let input = DecodeInput::<u64>::from_prefix(source).unwrap();
    assert_eq!(input.bytes(), &source[..8]);
    assert_eq!(&source[input.bytes().len()..], &source[8..]);
}

#[test]
fn subrange_reports_bounds_before_alignment_and_misalignment_control() {
    let storage = Aligned::new();
    let input = DecodeInput::<u64>::from_exact(&storage.bytes[..8]).unwrap();
    assert_eq!(
        input.subrange::<u64>(4).err().unwrap(),
        LayoutError::InsufficientBytes { required: 12, actual: 8 }
    );
    assert!(matches!(input.subrange::<u32>(1), Err(LayoutError::Misaligned { required: 4, .. })));
}

#[test]
fn copy_does_not_require_copy_wire() {
    fn copy_input<'a, W>(input: DecodeInput<'a, W>) -> DecodeInput<'a, W> {
        let copied = input;
        let _also_copied = input;
        copied
    }

    struct NotCopy;
    let input = DecodeInput::<NotCopy>::from_exact(&[]).unwrap();
    let _ = copy_input(input);
}

#[test]
fn exact_origin_bytes_include_padding() {
    #[allow(dead_code)]
    struct Padded {
        byte: u8,
        word: u32,
    }

    let mut storage = Aligned::new();
    storage.bytes[..8].copy_from_slice(&[1, 0xa1, 0xa2, 0xa3, 2, 0, 0, 0]);
    let input = DecodeInput::<Padded>::from_exact(&storage.bytes[..8]).unwrap();
    assert_eq!(input.bytes(), &[1, 0xa1, 0xa2, 0xa3, 2, 0, 0, 0]);
}

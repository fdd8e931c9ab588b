use zero_schema::__private::{BigU16, ExclusiveInput, InputAccess, RootInputAccess, SharedInput, U8};
use zero_schema::{LayoutError, SchemaBuffer};

#[derive(Clone, Copy)]
pub struct TestToken;

struct TestAccess;

impl InputAccess for TestAccess {
    type Token = TestToken;
}

/// A root wire with the size and alignment of `u64`.
#[allow(dead_code)]
struct Word(u64);

impl RootInputAccess for Word {
    type Token = TestToken;
}

struct Aligned {
    _align: [u64; 0],
    bytes: [u8; 24],
}

impl Aligned {
    fn new() -> Self {
        Aligned { _align: [], bytes: [0; 24] }
    }
}

struct Align16 {
    _align: [u128; 0],
}

#[test]
fn schema_buffer_is_exact_aligned_initialized_storage_only() {
    let mut buffer = SchemaBuffer::<Align16, 7>::new();

    assert_eq!(buffer.as_bytes(), &[0; 7]);
    assert_eq!(buffer.as_bytes().len(), 7);
    assert_eq!(core::mem::align_of_val(&buffer), 16);
    assert_eq!(core::mem::size_of_val(&buffer), 16);
    assert_eq!((buffer.as_bytes().as_ptr() as usize) % 16, 0);

    buffer.as_bytes_mut()[6] = 0xa5;
    assert_eq!(buffer.as_bytes(), &[0, 0, 0, 0, 0, 0, 0xa5]);
}

#[test]
fn exact_size_error_precedes_alignment() {
    let storage = Aligned::new();
    let misaligned = &storage.bytes[1..];

    assert_eq!(
        SharedInput::<Word>::from_exact(&misaligned[..7], TestToken).err(),
        Some(LayoutError::IncorrectSize { expected: 8, actual: 7 })
    );
}

#[test]
fn subrange_overflow_precedes_bounds() {
    let storage = Aligned::new();
    let input = SharedInput::<Word>::from_exact(&storage.bytes[..8], TestToken).unwrap();

    assert_eq!(
        input.subrange_bytes::<TestAccess>(usize::MAX, 1, TestToken),
        Err(LayoutError::OffsetOverflow)
    );
}

#[test]
fn mutable_subranges_are_short_reborrows() {
    let mut storage = Aligned::new();
    let mut input = ExclusiveInput::<Word>::from_exact(&mut storage.bytes[..8], TestToken).unwrap();

    {
        let field = input.subrange_bytes_mut::<TestAccess>(2, 3, TestToken).unwrap();
        field.copy_from_slice(&[7, 8, 9]);
    }

    assert_eq!(input.subrange_bytes::<TestAccess>(2, 3, TestToken).unwrap(), &[7, 8, 9]);
    assert_eq!(input.shared().subrange_bytes::<TestAccess>(0, 8, TestToken).unwrap()[2..5], [7, 8, 9]);
    assert_eq!(input.read_copy::<BigU16>(2), Ok(0x0708));
    assert_eq!(input.read_copy::<U8>(4), Ok(9));
}

#[test]
fn read_copy_returns_the_value_a_wire_holds() {
    let bytes = [41_u8];
    let input = SharedInput::<U8>::from_checked(&bytes).unwrap();
    assert_eq!(input.read_copy::<U8>(0), Ok(41));
    assert_eq!(
        input.read_copy::<U8>(1),
        Err(LayoutError::InsufficientBytes { required: 2, actual: 1 })
    );
    assert_eq!(input.read_copy::<U8>(usize::MAX), Err(LayoutError::OffsetOverflow));
}

#[test]
fn zero_scan_and_clear_cover_only_the_exact_checked_span() {
    let mut storage = [0x91_u8, 0, 0, 0, 0x71];
    {
        let input = SharedInput::<[u8; 3]>::from_checked(&storage[1..4]).unwrap();
        assert!(input.is_all_zero());
    }

    storage[2] = 0xa5;
    let input = SharedInput::<[u8; 3]>::from_checked(&storage[1..4]).unwrap();
    assert!(!input.is_all_zero());

    {
        let mut input = ExclusiveInput::<[u8; 3]>::from_checked(&mut storage[1..4]).unwrap();
        input.clear_all::<TestAccess>(TestToken);
    }
    assert_eq!(storage, [0x91, 0, 0, 0, 0x71]);
}

#[test]
fn exclusive_inputs_select_shared_typed_fields() {
    let mut storage = Aligned::new();
    storage.bytes[4] = 0x5a;
    let input = ExclusiveInput::<Word>::from_exact(&mut storage.bytes[..8], TestToken).unwrap();
    let field = input.subrange::<[u8; 2]>(4).unwrap();
    assert_eq!(field.subrange_bytes::<TestAccess>(0, 2, TestToken).unwrap(), &[0x5a, 0]);
    assert_eq!(
        input.subrange::<[u8; 2]>(7).err(),
        Some(LayoutError::InsufficientBytes { required: 9, actual: 8 })
    );
    assert_eq!(input.subrange::<[u8; 2]>(usize::MAX).err(), Some(LayoutError::OffsetOverflow));
}

#[test]
fn alignment_results_name_the_required_alignment_and_address() {
    assert_eq!(zero_schema::__private::alignment_result(16, 8), Ok(()));
    assert_eq!(zero_schema::__private::alignment_result(0, 4), Ok(()));
    assert_eq!(zero_schema::__private::alignment_result(7, 1), Ok(()));
    assert_eq!(
        zero_schema::__private::alignment_result(12, 8),
        Err(zero_schema::LayoutError::Misaligned { required: 8, address: 12 })
    );
}

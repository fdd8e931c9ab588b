use zero_schema::__private::__checked_wire_stride;
use zero_schema::SchemaBuffer;

struct GenericWire {
    _align: [u128; 0],
    _bytes: [u8; 7],
}

#[test]
fn schema_buffer_is_initialized_storage() {
    const SIZE: usize = 7;
    let mut buffer = SchemaBuffer::<GenericWire, SIZE>::default();
    assert_eq!(buffer.as_bytes(), &[0; SIZE]);
    assert_eq!(buffer.as_bytes().len(), SIZE);
    assert_eq!(core::mem::align_of_val(&buffer), core::mem::align_of::<GenericWire>());
    assert_eq!(core::mem::size_of_val(&buffer), core::mem::size_of::<GenericWire>());
    assert_eq!((buffer.as_bytes().as_ptr() as usize) % core::mem::align_of::<GenericWire>(), 0);

    buffer.as_bytes_mut()[0] = 7;
    assert_eq!(buffer.as_bytes()[0], 7);
}

#[test]
fn wire_stride_rounds_size_up_to_the_alignment() {
    assert_eq!(__checked_wire_stride(5, 4), Some(8));
    assert_eq!(__checked_wire_stride(8, 4), Some(8));
    assert_eq!(__checked_wire_stride(0, 16), Some(0));
    assert_eq!(__checked_wire_stride(usize::MAX, 2), None);
    assert_eq!(__checked_wire_stride(1, 0), None);
    assert_eq!(__checked_wire_stride(4, 3), None);
}

use zero_schema::{AlignedBytes, LayoutError, Prezeroed};

struct Align16 {
    _align: [u128; 0],
}

#[test]
fn aligned_bytes_are_initialized_and_exact_length() {
    let buffer = AlignedBytes::<Align16, 7>::zeroed();
    assert_eq!(buffer.as_bytes(), &[0; 7]);
    assert_eq!(buffer.as_bytes().len(), 7);
}

#[test]
fn aligned_bytes_carry_wire_alignment_and_stride_size() {
    let buffer = AlignedBytes::<Align16, 7>::zeroed();
    assert_eq!(core::mem::align_of_val(&buffer), 16);
    assert_eq!(core::mem::size_of_val(&buffer), 16);
    assert_eq!((buffer.as_bytes().as_ptr() as usize) % 16, 0);
}

#[test]
fn aligned_bytes_mutation_and_slice_traits_share_storage() {
    let mut buffer = AlignedBytes::<u32, 5>::zeroed();
    buffer.as_bytes_mut()[1] = 3;
    AsMut::<[u8]>::as_mut(&mut buffer)[4] = 9;
    assert_eq!(AsRef::<[u8]>::as_ref(&buffer), &[0, 3, 0, 0, 9]);
}

#[test]
fn root_fills_once_and_subranges_do_not_refill() {
    let mut bytes = [0xa5; 8];
    {
        let mut root = Prezeroed::new(&mut bytes);
        assert_eq!(root.len(), 8);
        root.write(1, &[1, 2, 3]).unwrap();
        {
            let mut child = root.subrange(2, 3).unwrap();
            child.write(1, &[9]).unwrap();
        }
        root.write(7, &[7]).unwrap();
    }
    assert_eq!(bytes, [0, 1, 2, 9, 0, 0, 0, 7]);
}

#[test]
fn writes_and_subranges_are_confined() {
    let mut bytes = [0xff; 10];
    {
        let mut root = Prezeroed::new(&mut bytes[2..8]);
        assert_eq!(
            root.write(5, &[1, 2]).unwrap_err(),
            LayoutError::InsufficientBytes { required: 7, actual: 6 }
        );
        assert_eq!(
            root.subrange(5, 2).err().unwrap(),
            LayoutError::InsufficientBytes { required: 7, actual: 6 }
        );
    }
    assert_eq!(bytes, [0xff, 0xff, 0, 0, 0, 0, 0, 0, 0xff, 0xff]);
}

#[test]
fn overflow_precedes_bounds() {
    let mut bytes = [1; 1];
    let mut root = Prezeroed::new(&mut bytes);
    assert_eq!(root.write(usize::MAX, &[1, 2]).unwrap_err(), LayoutError::OffsetOverflow);
    assert_eq!(root.subrange(usize::MAX, 2).err().unwrap(), LayoutError::OffsetOverflow);
}

use zero_schema::__private::{
    preflight_length_prefixed, prove_c_str, prove_str, prove_u16_c_str, prove_u16_c_str_bytes,
    prove_u16_str, prove_u16_str_bytes, set_c_str,
    set_str, set_u16_c_str, set_u16_str, BigU16, LittleU16, NativeU16, StringMutationError,
    StringProofError, U8,
};

/// The bytes of a terminated narrow string without its terminator.
fn c_contents(value: &[u8]) -> &[u8] {
    &value[..value.len() - 1]
}

/// The units of a terminated wide string without its terminator.
fn c_units(value: &[u16]) -> &[u16] {
    &value[..value.len() - 1]
}

#[test]
fn proofs_ignore_unused_capacity_for_every_string_form() {
    assert_eq!(prove_str(&U8::new(2), b"hi\xff").unwrap(), "hi");
    assert_eq!(c_contents(prove_c_str(b"a\0\xff").unwrap()), b"a");
    assert_eq!(prove_u16_str(&U8::new(1), &[0xd800, 9]).unwrap(), &[0xd800]);
    assert_eq!(c_units(prove_u16_c_str(&[0xd800, 0, 7]).unwrap()), &[0xd800]);

    assert_eq!(
        prove_str(&U8::new(3), b"hi").unwrap_err(),
        StringProofError::LengthOutOfBounds { length: 3, capacity: 2 }
    );
    assert!(matches!(prove_str(&U8::new(1), &[0xff]), Err(StringProofError::InvalidUtf8(_))));
    assert_eq!(prove_c_str(b"none").unwrap_err(), StringProofError::MissingNul);
    assert_eq!(prove_u16_c_str(&[7, 8]).unwrap_err(), StringProofError::MissingNul);
}

#[test]
fn narrow_mutations_preflight_and_preserve_unused_bytes() {
    let mut prefix = [0xa5];
    let mut str_data = [0xee; 4];
    set_str::<U8>(&mut prefix, &mut str_data, "hi").unwrap();
    assert_eq!(prefix, [2]);
    assert_eq!(str_data, [b'h', b'i', 0xee, 0xee]);

    let c_value = b"ok\0";
    let mut c_data = [0xee; 5];
    set_c_str(&mut c_data, c_value).unwrap();
    assert_eq!(c_data, [b'o', b'k', 0, 0xee, 0xee]);

    let before_prefix = prefix;
    let before_data = str_data;
    assert_eq!(
        set_str::<U8>(&mut prefix, &mut str_data, "toolong"),
        Err(StringMutationError::CapacityExceeded { length: 7, capacity: 4 })
    );
    assert_eq!(prefix, before_prefix);
    assert_eq!(str_data, before_data);
}

#[test]
fn wide_mutations_use_native_units_and_preserve_unused_bytes() {
    let value: &[u16] = &[0xd800, 9];
    let mut prefix = [0xa5; 2];
    let mut data = [0xee; 8];
    set_u16_str::<LittleU16>(&mut prefix, &mut data, value).unwrap();
    assert_eq!(prefix, [2, 0]);
    assert_eq!(&data[..2], &0xd800u16.to_ne_bytes());
    assert_eq!(&data[2..4], &9u16.to_ne_bytes());
    assert_eq!(&data[4..], &[0xee; 4]);

    let c_value: &[u16] = &[7, 0];
    let mut c_data = [0xee; 6];
    set_u16_c_str(&mut c_data, c_value).unwrap();
    assert_eq!(&c_data[..2], &7u16.to_ne_bytes());
    assert_eq!(&c_data[2..4], &0u16.to_ne_bytes());
    assert_eq!(&c_data[4..], &[0xee; 2]);

    let before_prefix = prefix;
    let before_data = data;
    assert_eq!(
        set_u16_str::<NativeU16>(&mut prefix[..1], &mut data, value),
        Err(StringMutationError::PrefixSize { expected: 2, actual: 1 })
    );
    assert_eq!(prefix, before_prefix);
    assert_eq!(data, before_data);
}

#[test]
fn representability_capacity_and_prefix_are_preflighted() {
    assert_eq!(
        preflight_length_prefixed::<U8>(256, 256, 1),
        Err(StringMutationError::LengthUnrepresentable { length: 256 })
    );
    assert_eq!(
        preflight_length_prefixed::<BigU16>(3, 2, 2),
        Err(StringMutationError::CapacityExceeded { length: 3, capacity: 2 })
    );
    assert_eq!(
        preflight_length_prefixed::<LittleU16>(1, 1, 1),
        Err(StringMutationError::PrefixSize { expected: 2, actual: 1 })
    );
    assert_eq!(
        set_u16_c_str(&mut [0; 3], &[1, 0]),
        Err(StringMutationError::WideByteSize { actual: 3 })
    );
}

#[test]
fn wide_c_string_capacity_counts_the_terminator() {
    let mut data = [0xee; 4];
    assert_eq!(
        set_u16_c_str(&mut data, &[1, 2, 0]),
        Err(StringMutationError::CapacityExceeded { length: 3, capacity: 2 })
    );
    assert_eq!(data, [0xee; 4]);
    assert_eq!(set_c_str(&mut [0; 2], b"ab\0"), Err(StringMutationError::CapacityExceeded {
        length: 3,
        capacity: 2
    }));
}

#[test]
fn written_strings_read_back() {
    let mut prefix = [0xa5];
    let mut data = [0xee; 6];
    set_str::<U8>(&mut prefix, &mut data, "abc").unwrap();
    assert_eq!(prove_str(&U8::new(prefix[0]), &data).unwrap(), "abc");
    assert_eq!(&data[3..], &[0xee; 3]);

    let mut c_data = [0xee; 6];
    set_c_str(&mut c_data, b"xy\0").unwrap();
    assert_eq!(prove_c_str(&c_data).unwrap(), b"xy\0");

    let mut units = [0xee; 8];
    set_u16_c_str(&mut units, &[5, 0]).unwrap();
    let read: Vec<u16> = units.chunks(2).map(|pair| u16::from_ne_bytes([pair[0], pair[1]])).collect();
    assert_eq!(prove_u16_c_str(&read).unwrap(), &[5, 0]);
}

/// The native-order bytes of `units`.
fn native_bytes(units: &[u16]) -> Vec<u8> {
    units.iter().flat_map(|unit| unit.to_ne_bytes()).collect()
}

#[test]
fn wide_values_are_proved_from_native_unit_bytes() {
    let bytes = native_bytes(&[0x41, 0x42, 0]);
    assert_eq!(prove_u16_str_bytes::<U8, 3>(&U8::new(2), &bytes), Ok(vec![0x41, 0x42]));
    assert_eq!(
        prove_u16_str_bytes::<U8, 3>(&U8::new(5), &bytes),
        Err(StringProofError::LengthOutOfBounds { length: 5, capacity: 3 })
    );
    let terminated = native_bytes(&[0x41, 0, 0x43]);
    assert_eq!(prove_u16_c_str_bytes::<3>(&terminated), Ok(vec![0x41, 0]));
    assert_eq!(
        prove_u16_c_str_bytes::<2>(&native_bytes(&[1, 2])),
        Err(StringProofError::MissingNul)
    );
}

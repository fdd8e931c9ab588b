use zero_schema::__private::{
    AlignedWire, BigI16, BigI32, BigU16, BigU32, BigU64, BoolWire, CStrWire, LengthWire,
    LittleI16, LittleI32, LittleU16, LittleU32, LittleU64, NativeU16, ScalarWire, StrWire,
    U16CStrWire, U16StrWire, U8,
};
use zero_schema::LayoutError;

#[test]
fn explicit_endian_values_and_checked_stores() {
    let wire = LittleU16::new(0x1234);
    assert_eq!(wire.get(), 0x1234);
    assert_eq!(wire.bytes(), &[0x34, 0x12]);
    assert_eq!(BigU16::new(0x1234).get(), 0x1234);
    assert_eq!(BigU16::new(0x1234).bytes(), &[0x12, 0x34]);
    assert_eq!(LittleI16::new(-2).get(), -2);
    assert_eq!(LittleI16::new(-2).bytes(), &[0xfe, 0xff]);
    assert_eq!(BigI16::new(-2).get(), -2);
    assert_eq!(BigI16::new(-2).bytes(), &[0xff, 0xfe]);
    assert_eq!(LittleU32::new(0x1234_5678).get(), 0x1234_5678);
    assert_eq!(LittleU32::new(0x1234_5678).bytes(), &[0x78, 0x56, 0x34, 0x12]);
    assert_eq!(BigU32::new(0x1234_5678).get(), 0x1234_5678);
    assert_eq!(BigU32::new(0x1234_5678).bytes(), &[0x12, 0x34, 0x56, 0x78]);
    assert_eq!(LittleI32::new(-2).get(), -2);
    assert_eq!(LittleI32::new(-2).bytes(), &[0xfe, 0xff, 0xff, 0xff]);
    assert_eq!(BigI32::new(-2).get(), -2);
    assert_eq!(BigI32::new(-2).bytes(), &[0xff, 0xff, 0xff, 0xfe]);
    assert_eq!(LittleU64::new(0x0102_0304_0506_0708).get(), 0x0102_0304_0506_0708);
    assert_eq!(LittleU64::new(0x0102_0304_0506_0708).bytes(), &[8, 7, 6, 5, 4, 3, 2, 1]);
    assert_eq!(BigU64::new(0x0102_0304_0506_0708).get(), 0x0102_0304_0506_0708);
    assert_eq!(BigU64::new(0x0102_0304_0506_0708).bytes(), &[1, 2, 3, 4, 5, 6, 7, 8]);
    assert_eq!(core::mem::size_of::<LittleU32>(), 4);
    assert_eq!(core::mem::align_of::<BigU64>(), core::mem::align_of::<u64>());

    let mut byte = [0; 1];
    <U8 as ScalarWire>::store(0x7f, &mut byte).unwrap();
    assert_eq!(byte, [0x7f]);

    let mut short = [0; 2];
    <NativeU16 as ScalarWire>::store(0x1234, &mut short).unwrap();
    assert_eq!(short, 0x1234u16.to_ne_bytes());
    <LittleU16 as ScalarWire>::store(0x1234, &mut short).unwrap();
    assert_eq!(short, [0x34, 0x12]);
    <BigU16 as ScalarWire>::store(0x1234, &mut short).unwrap();
    assert_eq!(short, [0x12, 0x34]);

    let mut scalar = [0; 4];
    <LittleU32 as ScalarWire>::store(0x0102_0304, &mut scalar).unwrap();
    assert_eq!(scalar, [4, 3, 2, 1]);
    <BigU32 as ScalarWire>::store(0x0102_0304, &mut scalar).unwrap();
    assert_eq!(scalar, [1, 2, 3, 4]);
    assert_eq!(
        <BigU16 as ScalarWire>::store(7, &mut scalar),
        Err(LayoutError::IncorrectSize { expected: 2, actual: 4 })
    );
}

#[test]
fn bool_and_length_stores() {
    assert_eq!(BoolWire::encode(false).decode(), Some(false));
    assert_eq!(BoolWire::encode(true).decode(), Some(true));
    assert_eq!(BoolWire::from_raw(2).decode(), None);
    let mut boolean = [0xa5];
    BoolWire::store(true, &mut boolean).unwrap();
    assert_eq!(boolean, [1]);

    let mut prefix = [0; 2];
    <LittleU16 as LengthWire>::store(0x1234, &mut prefix).unwrap();
    assert_eq!(prefix, [0x34, 0x12]);
    <BigU16 as LengthWire>::store(0x1234, &mut prefix).unwrap();
    assert_eq!(prefix, [0x12, 0x34]);
    assert!(!<U8 as LengthWire>::represents(256));
    assert_eq!(
        <U8 as LengthWire>::store(256, &mut prefix),
        Err(LayoutError::IncorrectSize { expected: 255, actual: 256 })
    );
    assert_eq!(prefix, [0x12, 0x34]);
}

#[test]
fn helper_layouts_and_alignment_wrappers_match_compiler_layout() {
    assert_eq!(StrWire::<LittleU32, 1>::len_offset(), 0);
    assert_eq!(StrWire::<LittleU32, 1>::data_offset(), 4);
    assert_eq!(U16StrWire::<U8, 1>::len_offset(), 0);
    assert_eq!(U16StrWire::<U8, 1>::data_offset(), 2);
    assert_eq!(core::mem::size_of::<CStrWire<3>>(), 3);
    assert_eq!(CStrWire::<3>::data_offset(), 0);
    assert_eq!(core::mem::align_of::<U16CStrWire<1>>(), core::mem::align_of::<u16>());
    assert_eq!(U16CStrWire::<1>::data_offset(), 0);
    assert_eq!(AlignedWire::<u8, u128>::value_offset(), 0);
    assert_eq!(core::mem::align_of::<AlignedWire<u8, u128>>(), core::mem::align_of::<u128>());
}

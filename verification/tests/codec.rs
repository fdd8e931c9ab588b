use zero_schema::__private::{
    decode_c_str, decode_str, decode_u16_c_str, decode_u16_str, encode_c_str, encode_str,
    encode_u16_str, validate_c_str_encode, validate_str_encode, validate_u16_c_str_encode,
    validate_u16_str_encode, U8,
};
use zero_schema::{CodecError, Prezeroed};

#[test]
fn length_prefixed_boundaries_and_tails() {
    assert_eq!(decode_str(&U8::new(0), b"", true), Ok(""));
    assert_eq!(decode_str(&U8::new(3), b"abc", true), Ok("abc"));
    assert_eq!(
        decode_str(&U8::new(4), b"abc", false),
        Err(CodecError::LengthOutOfBounds { length: 4, capacity: 3 })
    );
    match decode_str(&U8::new(1), &[0xff], false).unwrap_err() {
        CodecError::InvalidUtf8(source) => {
            assert_eq!(source.valid_up_to(), 0);
            assert_eq!(source.error_len(), Some(1));
        }
        other => panic!("expected invalid UTF-8, got {other:?}"),
    }
    assert_eq!(decode_str(&U8::new(1), b"ax", true), Err(CodecError::NonZeroTail { offset: 1 }));
}

/// The bytes of a terminated narrow string without its terminator.
fn c_contents(value: &[u8]) -> &[u8] {
    &value[..value.len() - 1]
}

#[test]
fn c_strings_use_first_nul() {
    assert_eq!(c_contents(decode_c_str(b"a\0b", false).unwrap()), b"a");
    assert_eq!(c_contents(decode_c_str(b"a\0\0", true).unwrap()), b"a");
    assert_eq!(decode_c_str(b"a\0b", true), Err(CodecError::NonZeroTail { offset: 2 }));
    assert_eq!(decode_c_str(b"abc", false), Err(CodecError::MissingNul));
    assert_eq!(c_contents(decode_c_str(b"\0", true).unwrap()), b"");
}

#[test]
fn wide_strings_count_code_units() {
    let unpaired = [0xd800, 0];
    assert_eq!(decode_u16_str(&U8::new(1), &unpaired, true).unwrap(), &[0xd800]);
    assert_eq!(
        decode_u16_str(&U8::new(3), &unpaired, false),
        Err(CodecError::LengthOutOfBounds { length: 3, capacity: 2 })
    );
    let c_value = decode_u16_c_str(&[0xd800, 0, 7], false).unwrap();
    assert_eq!(&c_value[..c_value.len() - 1], &[0xd800]);
    assert_eq!(decode_u16_c_str(&[0xd800, 0, 7], true), Err(CodecError::NonZeroTail { offset: 2 }));
    assert_eq!(decode_u16_c_str(&[1, 2], false), Err(CodecError::MissingNul));
}

#[test]
fn capacity_and_confined_writes() {
    assert_eq!(
        validate_str_encode("abc", 2),
        Err(CodecError::CapacityExceeded { length: 3, capacity: 2 })
    );
    assert_eq!(validate_str_encode("ab", 2), Ok(()));
    assert_eq!(
        validate_c_str_encode(b"ab\0", 2),
        Err(CodecError::CapacityExceeded { length: 3, capacity: 2 })
    );
    let mut bytes = [0xa5; 8];
    {
        let mut root = Prezeroed::new(&mut bytes[1..7]);
        let mut field = root.subrange(2, 3).unwrap();
        encode_str("abc", &mut field).unwrap();
    }
    assert_eq!(bytes, [0xa5, 0, 0, b'a', b'b', b'c', 0, 0xa5]);
}

#[test]
fn wide_and_terminated_encodes_are_confined() {
    assert_eq!(validate_u16_str_encode(&[1, 2], 2), Ok(()));
    assert_eq!(
        validate_u16_c_str_encode(&[1, 2, 0], 2),
        Err(CodecError::CapacityExceeded { length: 3, capacity: 2 })
    );
    let mut bytes = [0xa5; 6];
    {
        let mut root = Prezeroed::new(&mut bytes[1..5]);
        encode_c_str(b"a\0", &mut root).unwrap();
    }
    assert_eq!(bytes, [0xa5, b'a', 0, 0, 0, 0xa5]);
    let mut wide = [0xa5; 4];
    {
        let mut root = Prezeroed::new(&mut wide);
        encode_u16_str(&[0x0102], &mut root).unwrap();
        assert!(encode_u16_str(&[1, 2, 3], &mut root).is_err());
    }
    assert_eq!(&wide[..2], &0x0102u16.to_ne_bytes());
    assert_eq!(&wide[2..], &[0, 0]);
}

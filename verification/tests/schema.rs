use zero_schema::__private::{BigU16, LittleU32, U8};
use zero_schema::schema::{
    __checked_wire_stride, __layout_constants_match, decode_scalar, encode_scalar, ScalarEnum,
    ScalarRepr, ScalarWire, ZeroSchemaType,
};
use zero_schema::{
    DecodeInput, Endian, ErrorKind, ErrorPathSegment, IntegerRepr, LayoutDescriptor, LayoutError,
    Prezeroed, SchemaError, TypeKind,
};

#[derive(Debug)]
enum TestError {
    Layout(LayoutError),
    Unknown(u8),
}

impl SchemaError for TestError {
    fn kind(&self) -> ErrorKind {
        match self {
            Self::Layout(_) => ErrorKind::Layout,
            Self::Unknown(_) => ErrorKind::UnknownEnumValue,
        }
    }

    fn schema(&self) -> &'static str {
        "TestScalar"
    }

    fn segment(&self) -> Option<ErrorPathSegment> {
        None
    }
}

#[derive(Debug, Eq, PartialEq)]
struct TestScalar(u8);

impl ZeroSchemaType for TestScalar {
    type Wire = U8;
    type DecodeError = TestError;
    type EncodeError = TestError;
    const WIRE_SIZE: usize = 1;
    const WIRE_ALIGN: usize = 1;
    const WIRE_STRIDE: usize = 1;

    fn layout() -> &'static LayoutDescriptor {
        Box::leak(Box::new(LayoutDescriptor::__new(
            "TestScalar",
            TypeKind::ScalarEnum { repr: IntegerRepr::U8, endian: Endian::Native },
            1,
            1,
            1,
            &[],
            &[],
            &[],
            &[],
        )))
    }
}

impl ScalarEnum for TestScalar {
    fn from_raw(raw: u8) -> Option<Self> {
        if raw <= 1 {
            Some(Self(raw))
        } else {
            None
        }
    }

    fn to_raw(&self) -> u8 {
        self.0
    }

    fn __unknown(raw: u8) -> TestError {
        TestError::Unknown(raw)
    }

    fn __decode_layout(error: LayoutError) -> TestError {
        TestError::Layout(error)
    }

    fn __encode_layout(error: LayoutError) -> TestError {
        TestError::Layout(error)
    }
}

fn generic_decode<E: ScalarEnum>(bytes: &[u8]) -> Result<E, E::DecodeError> {
    decode_scalar::<E>(DecodeInput::from_exact(bytes).map_err(E::__decode_layout)?)
}

fn generic_encode<E: ScalarEnum>(value: &E, bytes: &mut [u8]) -> Result<(), E::EncodeError> {
    let mut destination = Prezeroed::new(bytes);
    encode_scalar(value, &mut destination)
}

#[test]
fn generic_scalar_codec_preserves_domain_and_bytes() {
    let mut bytes = [1_u8];
    let value = generic_decode::<TestScalar>(&bytes).unwrap();
    generic_encode(&value, &mut bytes).unwrap();
    assert_eq!(value, TestScalar(1));
    assert_eq!(bytes, [1]);
    let error = decode_scalar::<TestScalar>(DecodeInput::from_exact(&[7]).unwrap()).unwrap_err();
    assert!(matches!(error, TestError::Unknown(7)));
}

#[test]
fn sealed_wire_codecs_emit_exact_endian_bytes() {
    let mut bytes = [0xff; 4];
    let mut destination = Prezeroed::new(&mut bytes);
    <LittleU32 as ScalarWire>::write(0x0102_0304, &mut destination).unwrap();
    assert_eq!(bytes, [4, 3, 2, 1]);
    assert_eq!(<BigU16 as ScalarWire>::Repr::INTEGER_REPR, IntegerRepr::U16);
}

#[test]
fn checked_stride_and_declared_layout_agree() {
    assert_eq!(__checked_wire_stride(5, 4), Some(8));
    assert_eq!(__checked_wire_stride(usize::MAX, 2), None);
    assert_eq!(__checked_wire_stride(1, 0), None);
    assert!(__layout_constants_match::<TestScalar>());
}

#[test]
fn scalar_codecs_write_only_their_leading_bytes() {
    let mut bytes = [0xaa_u8; 6];
    let mut destination = Prezeroed::new(&mut bytes);
    <BigU16 as ScalarWire>::write(0x0102, &mut destination).unwrap();
    assert_eq!(bytes, [1, 2, 0, 0, 0, 0]);

    let mut short = [0_u8; 1];
    let mut destination = Prezeroed::new(&mut short);
    assert_eq!(
        <LittleU32 as ScalarWire>::write(7, &mut destination),
        Err(LayoutError::InsufficientBytes { required: 4, actual: 1 })
    );
}

#[test]
fn scalar_decode_reads_declared_endianness() {
    let big = BigU16::new(0x0a0b);
    assert_eq!(<BigU16 as ScalarWire>::read(&big), 0x0a0b);
    let storage = [0x34_u8];
    let input = DecodeInput::<U8>::from_exact(&storage).unwrap();
    assert_eq!(<U8 as ScalarWire>::read_from(input), Ok(0x34));
}

#[test]
fn scalar_encode_reports_short_destinations_through_the_enum() {
    let mut empty: [u8; 0] = [];
    let error = generic_encode(&TestScalar(1), &mut empty).unwrap_err();
    assert!(matches!(
        error,
        TestError::Layout(LayoutError::InsufficientBytes { required: 1, actual: 0 })
    ));
}

#[test]
fn fixed_order_codecs_read_back_what_they_write() {
    let mut storage = [0_u8; 4];
    let mut destination = Prezeroed::new(&mut storage);
    <LittleU32 as ScalarWire>::write(0xdead_beef, &mut destination).unwrap();
    let aligned = zero_schema::AlignedBytes::<u32, 4>::zeroed();
    let mut aligned = aligned;
    aligned.as_bytes_mut().copy_from_slice(&storage);
    let input = DecodeInput::<LittleU32>::from_exact(aligned.as_bytes()).unwrap();
    assert_eq!(<LittleU32 as ScalarWire>::read_from(input), Ok(0xdead_beef));
}

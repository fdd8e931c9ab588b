//! Schema traits implemented by generated types, the sealed scalar wire
//! codecs, and the layout arithmetic shared by schema declarations.

use vstd::prelude::*;

use crate::decode::DecodeInput;
use crate::encode::Prezeroed;
use crate::error::{LayoutError, SchemaError};
use crate::layout::{IntegerRepr, LayoutDescriptor};
use crate::mutation::{checked_range_spec, splice};
use crate::wire::{
    be_bytes_u16, be_bytes_u32, from_be_bytes_u16, from_be_bytes_u32, from_le_bytes_u16,
    from_le_bytes_u32, le_bytes_u16, le_bytes_u32, lemma_u16_bytes_roundtrip, lemma_u16_value_roundtrip,
    lemma_u32_bytes_roundtrip,
    lemma_u32_value_roundtrip, u16_from_native_bytes, u16_native_bytes, u32_from_native_bytes,
    u32_native_bytes, ne_bytes_u16, ne_bytes_u32, native_little, BigU16, BigU32, LittleU16, LittleU32,
    NativeU16, NativeU32, U8,
};

verus! {

/// A type with a fixed, all-bit-valid wire representation.
pub trait ZeroSchemaType: Sized {
    type Wire;
    type DecodeError: SchemaError;
    type EncodeError: SchemaError;

    const WIRE_SIZE: usize;
    const WIRE_ALIGN: usize;
    const WIRE_STRIDE: usize;

    /// The generated descriptor of this type's wire layout.
    fn layout() -> &'static LayoutDescriptor;
}

/// Cross-crate decoding entry point used by generated implementations.
pub trait DecodeWire<'src>: ZeroSchemaType {
    fn decode_at(input: DecodeInput<'src, Self::Wire>) -> Result<Self, Self::DecodeError>;
}

/// Cross-crate encoding entry point used by generated implementations.
pub trait EncodeWire: ZeroSchemaType {
    fn validate_encode(&self) -> Result<(), Self::EncodeError>;

    fn encode_at(&self, destination: &mut Prezeroed<'_>) -> Result<(), Self::EncodeError>;
}

/// Closes the set of scalar representations to the ones defined here.
pub(crate) trait SealedRepr {}

/// Closes the set of scalar wire codecs to the ones defined here.
pub(crate) trait SealedWire {}

impl SealedRepr for u8 {}

impl SealedRepr for u16 {}

impl SealedRepr for u32 {}

/// The closed set of integer representations available to scalar schemas.
#[allow(private_bounds)]
pub trait ScalarRepr: SealedRepr + Copy + Eq + Into<u64> {
    const INTEGER_REPR: IntegerRepr;
}

impl ScalarRepr for u8 {
    const INTEGER_REPR: IntegerRepr = IntegerRepr::U8;
}

impl ScalarRepr for u16 {
    const INTEGER_REPR: IntegerRepr = IntegerRepr::U16;
}

impl ScalarRepr for u32 {
    const INTEGER_REPR: IntegerRepr = IntegerRepr::U32;
}

/// The closed set of endian-aware scalar wire codecs.
#[allow(private_bounds)]
pub trait ScalarWire: SealedWire + Sized {
    type Repr: ScalarRepr;

    /// The number of bytes one wire value occupies.
    spec fn width() -> nat;

    /// Whether `bytes` are an encoding of `value` in this wire format.
    spec fn encodes(value: Self::Repr, bytes: Seq<u8>) -> bool;

    /// The value a typed wire holds.
    spec fn held(&self) -> Self::Repr;

    /// Whether this codec reads and writes one byte order for every value; a
    /// native codec uses the machine's.
    spec fn fixed_order() -> bool;

    /// A codec reads back what it wrote: bytes encoding two values encode
    /// one value.
    proof fn lemma_reads_back(a: Self::Repr, b: Self::Repr, bytes: Seq<u8>)
        requires
            Self::encodes(a, bytes),
            Self::encodes(b, bytes),
        ensures
            Self::fixed_order() ==> a == b,
            a == b,
    ;

    fn read(&self) -> (r: Self::Repr)
        ensures
            r == self.held(),
    ;

    /// Reads the value held by the exact bytes of one wire; bytes of any
    /// other width are rejected as a size mismatch.
    fn read_from(input: DecodeInput<'_, Self>) -> (r: Result<Self::Repr, LayoutError>)
        ensures
            input@.len() == Self::width() ==> (r matches Ok(value) && Self::encodes(value, input@)),
            input@.len() != Self::width() ==> r == Err::<Self::Repr, LayoutError>(
                LayoutError::IncorrectSize {
                    expected: Self::width() as usize,
                    actual: input@.len() as usize,
                },
            ),
    ;

    /// Writes the encoding of `value` to the start of `destination`.
    fn write(value: Self::Repr, destination: &mut Prezeroed<'_>) -> (r: Result<(), LayoutError>)
        ensures
            final(final(destination).storage())@ == final(old(destination).storage())@,
            match checked_range_spec(old(destination)@.len() as usize, 0, Self::width() as usize) {
                Err(e) => r == Err::<(), LayoutError>(e) && final(destination)@ == old(destination)@,
                Ok(_) => {
                    &&& r is Ok
                    &&& final(destination)@.len() == old(destination)@.len()
                    &&& Self::encodes(value, final(destination)@.subrange(0, Self::width() as int))
                    &&& final(destination)@.subrange(Self::width() as int, final(destination)@.len() as int)
                        == old(destination)@.subrange(Self::width() as int, old(destination)@.len() as int)
                },
            },
    ;
}

/// The outcome of writing `value` to the start of `before`: a destination
/// shorter than the wire is rejected unchanged; otherwise its first bytes
/// encode `value` and the rest stay as they were.
pub open spec fn scalar_written<W: ScalarWire>(
    value: W::Repr,
    before: Seq<u8>,
    after: Seq<u8>,
    r: Result<(), LayoutError>,
) -> bool {
    let width = W::width() as int;
    match checked_range_spec(before.len() as usize, 0, width as usize) {
        Err(e) => r == Err::<(), LayoutError>(e) && after == before,
        Ok(_) => {
            &&& r is Ok
            &&& after.len() == before.len()
            &&& W::encodes(value, after.subrange(0, width))
            &&& after.subrange(width, after.len() as int) == before.subrange(width, before.len() as int)
        },
    }
}

/// A closed set of named integer values stored through a scalar wire codec.
pub trait ScalarEnum: ZeroSchemaType<Wire: ScalarWire> {
    fn from_raw(raw: <Self::Wire as ScalarWire>::Repr) -> Option<Self>;

    fn to_raw(&self) -> <Self::Wire as ScalarWire>::Repr;

    fn __unknown(raw: <Self::Wire as ScalarWire>::Repr) -> Self::DecodeError;

    fn __decode_layout(error: LayoutError) -> Self::DecodeError;

    fn __encode_layout(error: LayoutError) -> Self::EncodeError;
}

/// A union whose tag is a scalar enum stored beside its payload.
pub trait TaggedUnion: EncodeWire {
    type Tag: ScalarEnum;
    type PayloadWire;

    fn tag(&self) -> Self::Tag;

    fn validate_payload_encode(&self) -> Result<(), Self::EncodeError>;

    fn encode_payload_at(&self, destination: &mut Prezeroed<'_>) -> Result<(), Self::EncodeError>;
}

/// Decoding side of a tagged union: the payload is decoded for a known tag.
pub trait DecodeTaggedUnion<'src>: TaggedUnion + DecodeWire<'src> {
    fn decode_payload(tag: &Self::Tag, input: DecodeInput<'src, Self::PayloadWire>) -> Result<
        Self,
        Self::DecodeError,
    >;

    fn validate_decoded(&self) -> Result<(), Self::DecodeError>;
}

/// What decoding a scalar enum from its raw value returns: the value that
/// `from_raw` found, or the unknown-value error for `raw`.
pub open spec fn scalar_decoded<E: ScalarEnum>(
    raw: <E::Wire as ScalarWire>::Repr,
    r: Result<E, E::DecodeError>,
) -> bool {
    match r {
        Ok(value) => call_ensures(E::from_raw, (raw,), Some(value)),
        Err(error) => call_ensures(E::from_raw, (raw,), None::<E>) && call_ensures(
            E::__unknown,
            (raw,),
            error,
        ),
    }
}

/// Decodes a scalar enum from the exact bytes of its wire.
///
/// The raw value read from the bytes is handed to `from_raw`; a raw value it
/// does not know becomes the enum's unknown-value error.
pub fn decode_scalar<E: ScalarEnum>(input: DecodeInput<'_, E::Wire>) -> (r: Result<E, E::DecodeError>)
    ensures
        input@.len() == <E::Wire as ScalarWire>::width() ==> exists|raw: <E::Wire as ScalarWire>::Repr|
            #![trigger <E::Wire as ScalarWire>::encodes(raw, input@)]
            <E::Wire as ScalarWire>::encodes(raw, input@) && scalar_decoded::<E>(raw, r),
        input@.len() != <E::Wire as ScalarWire>::width() ==> (r matches Err(error) && call_ensures(
            E::__decode_layout,
            (
                LayoutError::IncorrectSize {
                    expected: <E::Wire as ScalarWire>::width() as usize,
                    actual: input@.len() as usize,
                },
            ),
            error,
        )),
{
    let raw = match <E::Wire as ScalarWire>::read_from(input) {
        Ok(raw) => raw,
        Err(error) => return Err(E::__decode_layout(error)),
    };
    match E::from_raw(raw) {
        Some(value) => Ok(value),
        None => Err(E::__unknown(raw)),
    }
}

/// What encoding a scalar enum whose raw value is `raw` does to `before`:
/// the wire write's outcome, with a layout failure turned into the enum's
/// encode error.
pub open spec fn scalar_encoded<E: ScalarEnum>(
    raw: <E::Wire as ScalarWire>::Repr,
    before: Seq<u8>,
    after: Seq<u8>,
    r: Result<(), E::EncodeError>,
) -> bool {
    let width = <E::Wire as ScalarWire>::width() as int;
    match checked_range_spec(before.len() as usize, 0, width as usize) {
        Err(e) => after == before && (r matches Err(error) && call_ensures(
            E::__encode_layout,
            (e,),
            error,
        )),
        Ok(_) => {
            &&& r is Ok
            &&& after.len() == before.len()
            &&& <E::Wire as ScalarWire>::encodes(raw, after.subrange(0, width))
            &&& after.subrange(width, after.len() as int) == before.subrange(width, before.len() as int)
        },
    }
}

/// Encodes a scalar enum to the start of `destination` through its wire codec.
pub fn encode_scalar<E: ScalarEnum>(value: &E, destination: &mut Prezeroed<'_>) -> (r: Result<
    (),
    E::EncodeError,
>)
    ensures
        final(final(destination).storage())@ == final(old(destination).storage())@,
        exists|raw: <E::Wire as ScalarWire>::Repr| #![trigger call_ensures(E::to_raw, (value,), raw)]
            call_ensures(E::to_raw, (value,), raw) && scalar_encoded::<E>(
                raw,
                old(destination)@,
                final(destination)@,
                r,
            ),
{
    let raw = value.to_raw();
    match <E::Wire as ScalarWire>::write(raw, destination) {
        Ok(()) => Ok(()),
        Err(error) => Err(E::__encode_layout(error)),
    }
}

/// Reads the raw value held by a scalar enum's wire.
pub fn read_scalar_raw<E: ScalarEnum>(wire: &E::Wire) -> (r: <E::Wire as ScalarWire>::Repr)
    ensures
        r == wire.held(),
{
    wire.read()
}

/// Writes a raw value to the start of `destination` through a scalar enum's
/// wire codec, without checking that the value is one the enum names.
pub fn write_scalar_raw<E: ScalarEnum>(
    raw: <E::Wire as ScalarWire>::Repr,
    destination: &mut Prezeroed<'_>,
) -> (r: Result<(), LayoutError>)
    ensures
        final(final(destination).storage())@ == final(old(destination).storage())@,
        scalar_written::<E::Wire>(raw, old(destination)@, final(destination)@, r),
{
    <E::Wire as ScalarWire>::write(raw, destination)
}

/// A scalar enum encoded and then decoded gives itself back, whenever the enum's own `from_raw` maps its raw value back
/// to it: the raw value `encode_scalar` wrote is the one `decode_scalar`
/// reads, and `from_raw` then names the value.
pub proof fn lemma_scalar_enum_round_trip<E: ScalarEnum>(
    value: E,
    raw: <E::Wire as ScalarWire>::Repr,
    encoded: Seq<u8>,
    decoded_raw: <E::Wire as ScalarWire>::Repr,
    decoded: Result<E, E::DecodeError>,
)
    requires
        call_ensures(E::to_raw, (&value,), raw),
        <E::Wire as ScalarWire>::encodes(raw, encoded),
        <E::Wire as ScalarWire>::encodes(decoded_raw, encoded),
        scalar_decoded::<E>(decoded_raw, decoded),
        forall|found: Option<E>| #[trigger] call_ensures(E::from_raw, (raw,), found) ==> found == Some(
            value,
        ),
    ensures
        decoded == Ok::<E, E::DecodeError>(value),
{
    <E::Wire as ScalarWire>::lemma_reads_back(raw, decoded_raw, encoded);
    match decoded {
        Ok(v) => {
            assert(call_ensures(E::from_raw, (raw,), Some(v)));
        },
        Err(error) => {
            assert(call_ensures(E::from_raw, (raw,), None::<E>));
        },
    }
}

/// A write of `source` at offset zero replaces exactly the first bytes.
proof fn lemma_prefix_write(before: Seq<u8>, after: Seq<u8>, source: Seq<u8>)
    requires
        source.len() <= before.len(),
        after == splice(before, 0, source),
    ensures
        after.len() == before.len(),
        after.subrange(0, source.len() as int) == source,
        after.subrange(source.len() as int, after.len() as int) == before.subrange(
            source.len() as int,
            before.len() as int,
        ),
{
    assert(after.subrange(0, source.len() as int) =~= source);
    assert(after.subrange(source.len() as int, after.len() as int) =~= before.subrange(
        source.len() as int,
        before.len() as int,
    ));
}

impl SealedWire for U8 {}

impl ScalarWire for U8 {
    type Repr = u8;

    open spec fn width() -> nat {
        1
    }

    open spec fn encodes(value: u8, bytes: Seq<u8>) -> bool {
        bytes == seq![value]
    }

    open spec fn held(&self) -> u8 {
        self.spec_value()
    }

    open spec fn fixed_order() -> bool {
        true
    }

    proof fn lemma_reads_back(a: u8, b: u8, bytes: Seq<u8>) {
        assert(bytes[0] == a && bytes[0] == b);
    }

    fn read(&self) -> (r: u8) {
        self.get()
    }

    fn read_from(input: DecodeInput<'_, U8>) -> (r: Result<u8, LayoutError>) {
        let bytes = input.bytes();
        if bytes.len() != 1 {
            return Err(LayoutError::IncorrectSize { expected: 1, actual: bytes.len() });
        }
        let value = bytes[0];
        assert(bytes@ =~= seq![value]);
        Ok(value)
    }

    fn write(value: u8, destination: &mut Prezeroed<'_>) -> (r: Result<(), LayoutError>) {
        let bytes = [value];
        assert(bytes@ =~= seq![value]);
        let r = destination.write(0, bytes.as_slice());
        proof {
            if r is Ok {
                lemma_prefix_write(old(destination)@, destination@, bytes@);
            }
        }
        r
    }
}

impl SealedWire for NativeU16 {}

impl ScalarWire for NativeU16 {
    type Repr = u16;

    open spec fn width() -> nat {
        2
    }

    open spec fn encodes(value: u16, bytes: Seq<u8>) -> bool {
        bytes == ne_bytes_u16(value)
    }

    open spec fn held(&self) -> u16 {
        self.spec_value()
    }

    open spec fn fixed_order() -> bool {
        true
    }

    proof fn lemma_reads_back(a: u16, b: u16, bytes: Seq<u8>) {
        lemma_u16_bytes_roundtrip(a);
        lemma_u16_bytes_roundtrip(b);
    }

    fn read(&self) -> (r: u16) {
        self.get()
    }

    fn read_from(input: DecodeInput<'_, NativeU16>) -> (r: Result<u16, LayoutError>) {
        let bytes = input.bytes();
        if bytes.len() != 2 {
            return Err(LayoutError::IncorrectSize { expected: 2, actual: bytes.len() });
        }
        let raw = [bytes[0], bytes[1]];
        assert(raw@ =~= bytes@);
        Ok(u16_from_native_bytes(raw))
    }

    fn write(value: u16, destination: &mut Prezeroed<'_>) -> (r: Result<(), LayoutError>) {
        let bytes = u16_native_bytes(value);
        let r = destination.write(0, bytes.as_slice());
        proof {
            if r is Ok {
                lemma_prefix_write(old(destination)@, destination@, bytes@);
            }
        }
        r
    }
}

impl SealedWire for LittleU16 {}

impl ScalarWire for LittleU16 {
    type Repr = u16;

    open spec fn width() -> nat {
        2
    }

    open spec fn encodes(value: u16, bytes: Seq<u8>) -> bool {
        bytes == le_bytes_u16(value)
    }

    open spec fn held(&self) -> u16 {
        from_le_bytes_u16(self.spec_bytes())
    }

    open spec fn fixed_order() -> bool {
        true
    }

    proof fn lemma_reads_back(a: u16, b: u16, bytes: Seq<u8>) {
        lemma_u16_bytes_roundtrip(a);
        lemma_u16_bytes_roundtrip(b);
    }

    fn read(&self) -> (r: u16) {
        self.get()
    }

    fn read_from(input: DecodeInput<'_, LittleU16>) -> (r: Result<u16, LayoutError>) {
        let bytes = input.bytes();
        if bytes.len() != 2 {
            return Err(LayoutError::IncorrectSize { expected: 2, actual: bytes.len() });
        }
        let value: u16 = (bytes[0] as u16) + (bytes[1] as u16) * 0x100;
        proof {
            lemma_u16_value_roundtrip(bytes@);
            assert(value == from_le_bytes_u16(bytes@));
        }
        Ok(value)
    }

    fn write(value: u16, destination: &mut Prezeroed<'_>) -> (r: Result<(), LayoutError>) {
        let wire = LittleU16::new(value);
        let bytes = wire.bytes();
        let r = destination.write(0, bytes.as_slice());
        proof {
            if r is Ok {
                lemma_prefix_write(old(destination)@, destination@, bytes@);
            }
        }
        r
    }
}

impl SealedWire for BigU16 {}

impl ScalarWire for BigU16 {
    type Repr = u16;

    open spec fn width() -> nat {
        2
    }

    open spec fn encodes(value: u16, bytes: Seq<u8>) -> bool {
        bytes == be_bytes_u16(value)
    }

    open spec fn held(&self) -> u16 {
        from_be_bytes_u16(self.spec_bytes())
    }

    open spec fn fixed_order() -> bool {
        true
    }

    proof fn lemma_reads_back(a: u16, b: u16, bytes: Seq<u8>) {
        lemma_u16_bytes_roundtrip(a);
        lemma_u16_bytes_roundtrip(b);
    }

    fn read(&self) -> (r: u16) {
        self.get()
    }

    fn read_from(input: DecodeInput<'_, BigU16>) -> (r: Result<u16, LayoutError>) {
        let bytes = input.bytes();
        if bytes.len() != 2 {
            return Err(LayoutError::IncorrectSize { expected: 2, actual: bytes.len() });
        }
        let value: u16 = (bytes[1] as u16) + (bytes[0] as u16) * 0x100;
        proof {
            lemma_u16_value_roundtrip(bytes@);
            assert(value == from_be_bytes_u16(bytes@));
        }
        Ok(value)
    }

    fn write(value: u16, destination: &mut Prezeroed<'_>) -> (r: Result<(), LayoutError>) {
        let wire = BigU16::new(value);
        let bytes = wire.bytes();
        let r = destination.write(0, bytes.as_slice());
        proof {
            if r is Ok {
                lemma_prefix_write(old(destination)@, destination@, bytes@);
            }
        }
        r
    }
}

impl SealedWire for NativeU32 {}

impl ScalarWire for NativeU32 {
    type Repr = u32;

    open spec fn width() -> nat {
        4
    }

    open spec fn encodes(value: u32, bytes: Seq<u8>) -> bool {
        bytes == ne_bytes_u32(value)
    }

    open spec fn held(&self) -> u32 {
        self.spec_value()
    }

    open spec fn fixed_order() -> bool {
        true
    }

    proof fn lemma_reads_back(a: u32, b: u32, bytes: Seq<u8>) {
        lemma_u32_bytes_roundtrip(a);
        lemma_u32_bytes_roundtrip(b);
    }

    fn read(&self) -> (r: u32) {
        self.get()
    }

    fn read_from(input: DecodeInput<'_, NativeU32>) -> (r: Result<u32, LayoutError>) {
        let bytes = input.bytes();
        if bytes.len() != 4 {
            return Err(LayoutError::IncorrectSize { expected: 4, actual: bytes.len() });
        }
        let raw = [bytes[0], bytes[1], bytes[2], bytes[3]];
        assert(raw@ =~= bytes@);
        Ok(u32_from_native_bytes(raw))
    }

    fn write(value: u32, destination: &mut Prezeroed<'_>) -> (r: Result<(), LayoutError>) {
        let bytes = u32_native_bytes(value);
        let r = destination.write(0, bytes.as_slice());
        proof {
            if r is Ok {
                lemma_prefix_write(old(destination)@, destination@, bytes@);
            }
        }
        r
    }
}

impl SealedWire for LittleU32 {}

impl ScalarWire for LittleU32 {
    type Repr = u32;

    open spec fn width() -> nat {
        4
    }

    open spec fn encodes(value: u32, bytes: Seq<u8>) -> bool {
        bytes == le_bytes_u32(value)
    }

    open spec fn held(&self) -> u32 {
        from_le_bytes_u32(self.spec_bytes())
    }

    open spec fn fixed_order() -> bool {
        true
    }

    proof fn lemma_reads_back(a: u32, b: u32, bytes: Seq<u8>) {
        lemma_u32_bytes_roundtrip(a);
        lemma_u32_bytes_roundtrip(b);
    }

    fn read(&self) -> (r: u32) {
        self.get()
    }

    fn read_from(input: DecodeInput<'_, LittleU32>) -> (r: Result<u32, LayoutError>) {
        let bytes = input.bytes();
        if bytes.len() != 4 {
            return Err(LayoutError::IncorrectSize { expected: 4, actual: bytes.len() });
        }
        let value: u32 = (bytes[0] as u32) + (bytes[1] as u32) * 0x100 + (bytes[2] as u32) * 0x10000 + (bytes[3] as u32) * 0x1000000;
        proof {
            lemma_u32_value_roundtrip(bytes@);
            assert(value == from_le_bytes_u32(bytes@));
        }
        Ok(value)
    }

    fn write(value: u32, destination: &mut Prezeroed<'_>) -> (r: Result<(), LayoutError>) {
        let wire = LittleU32::new(value);
        let bytes = wire.bytes();
        let r = destination.write(0, bytes.as_slice());
        proof {
            if r is Ok {
                lemma_prefix_write(old(destination)@, destination@, bytes@);
            }
        }
        r
    }
}

impl SealedWire for BigU32 {}

impl ScalarWire for BigU32 {
    type Repr = u32;

    open spec fn width() -> nat {
        4
    }

    open spec fn encodes(value: u32, bytes: Seq<u8>) -> bool {
        bytes == be_bytes_u32(value)
    }

    open spec fn held(&self) -> u32 {
        from_be_bytes_u32(self.spec_bytes())
    }

    open spec fn fixed_order() -> bool {
        true
    }

    proof fn lemma_reads_back(a: u32, b: u32, bytes: Seq<u8>) {
        lemma_u32_bytes_roundtrip(a);
        lemma_u32_bytes_roundtrip(b);
    }

    fn read(&self) -> (r: u32) {
        self.get()
    }

    fn read_from(input: DecodeInput<'_, BigU32>) -> (r: Result<u32, LayoutError>) {
        let bytes = input.bytes();
        if bytes.len() != 4 {
            return Err(LayoutError::IncorrectSize { expected: 4, actual: bytes.len() });
        }
        let value: u32 = (bytes[3] as u32) + (bytes[2] as u32) * 0x100 + (bytes[1] as u32) * 0x10000 + (bytes[0] as u32) * 0x1000000;
        proof {
            lemma_u32_value_roundtrip(bytes@);
            assert(value == from_be_bytes_u32(bytes@));
        }
        Ok(value)
    }

    fn write(value: u32, destination: &mut Prezeroed<'_>) -> (r: Result<(), LayoutError>) {
        let wire = BigU32::new(value);
        let bytes = wire.bytes();
        let r = destination.write(0, bytes.as_slice());
        proof {
            if r is Ok {
                lemma_prefix_write(old(destination)@, destination@, bytes@);
            }
        }
        r
    }
}

/// A native scalar wire is read and written in the machine's one byte order:
/// on a little-endian machine it is the little-endian wire, on a big-endian
/// machine the big-endian wire, for every value; so a native value reads back
/// as itself, and native bytes hold the value `from_ne_bytes` gives.
pub proof fn lemma_native_codecs_are_machine_order(bytes: Seq<u8>, a16: u16, b16: u16, a32: u32, b32: u32)
    ensures
        native_little() ==> (<NativeU16 as ScalarWire>::encodes(a16, bytes) <==> <LittleU16 as ScalarWire>::encodes(
            a16,
            bytes,
        )),
        !native_little() ==> (<NativeU16 as ScalarWire>::encodes(a16, bytes) <==> <BigU16 as ScalarWire>::encodes(
            a16,
            bytes,
        )),
        native_little() ==> (<NativeU32 as ScalarWire>::encodes(a32, bytes) <==> <LittleU32 as ScalarWire>::encodes(
            a32,
            bytes,
        )),
        !native_little() ==> (<NativeU32 as ScalarWire>::encodes(a32, bytes) <==> <BigU32 as ScalarWire>::encodes(
            a32,
            bytes,
        )),
        <NativeU16 as ScalarWire>::encodes(a16, bytes) && <NativeU16 as ScalarWire>::encodes(b16, bytes)
            ==> a16 == b16,
        <NativeU32 as ScalarWire>::encodes(a32, bytes) && <NativeU32 as ScalarWire>::encodes(b32, bytes)
            ==> a32 == b32,
        <NativeU16 as ScalarWire>::encodes(a16, bytes) ==> a16 == (if native_little() {
            from_le_bytes_u16(bytes)
        } else {
            from_be_bytes_u16(bytes)
        }),
        <NativeU32 as ScalarWire>::encodes(a32, bytes) ==> a32 == (if native_little() {
            from_le_bytes_u32(bytes)
        } else {
            from_be_bytes_u32(bytes)
        }),
{
    lemma_u16_bytes_roundtrip(a16);
    lemma_u16_bytes_roundtrip(b16);
    lemma_u32_bytes_roundtrip(a32);
    lemma_u32_bytes_roundtrip(b32);
}

/// The fixed-order scalar codecs read back what they wrote: bytes that
/// encode two values under the same codec encode one value.
pub proof fn lemma_fixed_order_codecs_read_back(
    bytes: Seq<u8>,
    a8: u8,
    b8: u8,
    a16: u16,
    b16: u16,
    a32: u32,
    b32: u32,
)
    ensures
        <U8 as ScalarWire>::encodes(a8, bytes) && <U8 as ScalarWire>::encodes(b8, bytes) ==> a8 == b8,
        <LittleU16 as ScalarWire>::encodes(a16, bytes) && <LittleU16 as ScalarWire>::encodes(b16, bytes)
            ==> a16 == b16,
        <BigU16 as ScalarWire>::encodes(a16, bytes) && <BigU16 as ScalarWire>::encodes(b16, bytes)
            ==> a16 == b16,
        <LittleU32 as ScalarWire>::encodes(a32, bytes) && <LittleU32 as ScalarWire>::encodes(b32, bytes)
            ==> a32 == b32,
        <BigU32 as ScalarWire>::encodes(a32, bytes) && <BigU32 as ScalarWire>::encodes(b32, bytes)
            ==> a32 == b32,
{
    if <U8 as ScalarWire>::encodes(a8, bytes) && <U8 as ScalarWire>::encodes(b8, bytes) {
        assert(bytes[0] == a8 && bytes[0] == b8);
    }
    lemma_u16_bytes_roundtrip(a16);
    lemma_u16_bytes_roundtrip(b16);
    lemma_u32_bytes_roundtrip(a32);
    lemma_u32_bytes_roundtrip(b32);
}

/// Whether `align` is a power of two: nonzero with a single bit set.
pub open spec fn power_of_two(align: usize) -> bool {
    align != 0 && align & ((align - 1) as usize) == 0
}

/// The size of one aligned wire slot: `size` rounded up to the next multiple
/// of `align`. Alignments that are not powers of two, and slots that do not
/// fit in a `usize`, have no stride.
pub open spec fn wire_stride_spec(size: usize, align: usize) -> Option<usize> {
    if !power_of_two(align) {
        None
    } else if size + align - 1 > usize::MAX {
        None
    } else {
        Some((((size + align - 1) / (align as int)) * align) as usize)
    }
}

/// Computes the size of one aligned wire slot, returning `None` on overflow.
pub fn __checked_wire_stride(size: usize, align: usize) -> (r: Option<usize>)
    ensures
        r == wire_stride_spec(size, align),
{
    if align == 0 || align & (align - 1) != 0 {
        return None;
    }
    let mask = align - 1;
    match size.checked_add(mask) {
        Some(rounded) => {
            let stride = rounded - rounded % align;
            let ghost r: int = rounded as int;
            let ghost a: int = align as int;
            assert(r - r % a == (r / a) * a) by (nonlinear_arith)
                requires
                    a > 0,
            ;
            Some(stride)
        },
        None => None,
    }
}

/// Checks the three layout constants declared for `T` against the size and
/// alignment of its wire type and the stride they imply.
pub fn __layout_constants_match<T: ZeroSchemaType>() -> (r: bool)
    ensures
        r == (T::WIRE_SIZE == vstd::layout::size_of::<T::Wire>() && T::WIRE_ALIGN
            == vstd::layout::align_of::<T::Wire>() && wire_stride_spec(T::WIRE_SIZE, T::WIRE_ALIGN)
            == Some(T::WIRE_STRIDE)),
{
    vstd::layout::layout_for_type_is_valid::<T::Wire>();
    let size = core::mem::size_of::<T::Wire>();
    let align = core::mem::align_of::<T::Wire>();
    if T::WIRE_SIZE != size || T::WIRE_ALIGN != align {
        return false;
    }
    match __checked_wire_stride(T::WIRE_SIZE, T::WIRE_ALIGN) {
        Some(stride) => T::WIRE_STRIDE == stride,
        None => false,
    }
}

/// A stride is the least multiple of the alignment that holds the size.
pub proof fn lemma_wire_stride_is_least_aligned_cover(size: usize, align: usize)
    requires
        wire_stride_spec(size, align) is Some,
    ensures
        ({
            let stride = wire_stride_spec(size, align)->0;
            &&& stride % align == 0
            &&& size <= stride
            &&& stride < size + align
        }),
{
    let a: int = align as int;
    let t: int = size + a - 1;
    assert(((t / a) * a) % a == 0) by (nonlinear_arith)
        requires
            a > 0,
    ;
    assert(t - a < (t / a) * a <= t) by (nonlinear_arith)
        requires
            a > 0,
            t >= 0,
    ;
}

} // verus!

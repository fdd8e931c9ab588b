//! All-bit-valid wire storage primitives.
//!
//! These types only describe the in-memory representation and provide bounded
//! byte stores for already selected field slices.

use vstd::prelude::*;

use crate::error::LayoutError;
use crate::mutation::copy_all;

verus! {

/// Stores `source` into a destination of exactly the same width; any other
/// destination width is an error and leaves the destination unchanged.
fn store_exact(destination: &mut [u8], source: &[u8]) -> (r: Result<(), LayoutError>)
    ensures
        old(destination)@.len() == source@.len() ==> r is Ok && final(destination)@ == source@,
        old(destination)@.len() != source@.len() ==> r == Err::<(), LayoutError>(
            LayoutError::IncorrectSize {
                expected: source@.len() as usize,
                actual: old(destination)@.len() as usize,
            },
        ) && final(destination)@ == old(destination)@,
{
    if destination.len() != source.len() {
        return Err(LayoutError::IncorrectSize { expected: source.len(), actual: destination.len() });
    }
    copy_all(destination, source);
    Ok(())
}

/// The outcome promised by a checked exact-width store of `encoded`.
pub open spec fn stored_exactly(
    before: Seq<u8>,
    after: Seq<u8>,
    encoded: Seq<u8>,
    r: Result<(), LayoutError>,
) -> bool {
    &&& before.len() == encoded.len() ==> r is Ok && after == encoded
    &&& before.len() != encoded.len() ==> r == Err::<(), LayoutError>(
        LayoutError::IncorrectSize { expected: encoded.len() as usize, actual: before.len() as usize },
    ) && after == before
}

/// The outcome of a store whose encoding is one of two byte orders.
pub open spec fn stored_either(
    before: Seq<u8>,
    after: Seq<u8>,
    first: Seq<u8>,
    second: Seq<u8>,
    r: Result<(), LayoutError>,
) -> bool {
    stored_exactly(before, after, first, r) || stored_exactly(before, after, second, r)
}

/// The 2 little-endian bytes of `v`: least significant byte first.
pub open spec fn le_bytes_u16(v: u16) -> Seq<u8> {
    seq![(v % 0x100) as u8, (v / 0x100) as u8]
}

/// The 2 big-endian bytes of `v`: most significant byte first.
pub open spec fn be_bytes_u16(v: u16) -> Seq<u8> {
    seq![(v / 0x100) as u8, (v % 0x100) as u8]
}

/// The value of 2 bytes read least significant byte first.
pub open spec fn from_le_bytes_u16(b: Seq<u8>) -> u16
    recommends
        b.len() == 2,
{
    (b[0] + b[1] * 0x100) as u16
}

/// The value of 2 bytes read most significant byte first.
pub open spec fn from_be_bytes_u16(b: Seq<u8>) -> u16
    recommends
        b.len() == 2,
{
    (b[1] + b[0] * 0x100) as u16
}

/// Reading back the little- or big-endian bytes of a value gives the value.
pub proof fn lemma_u16_bytes_roundtrip(v: u16)
    ensures
        from_le_bytes_u16(le_bytes_u16(v)) == v,
        from_be_bytes_u16(be_bytes_u16(v)) == v,
        le_bytes_u16(v).len() == 2,
        be_bytes_u16(v).len() == 2,
{
}

/// Re-encoding a decoded 2-byte sequence reproduces the bytes.
pub proof fn lemma_u16_value_roundtrip(b: Seq<u8>)
    requires
        b.len() == 2,
    ensures
        le_bytes_u16(from_le_bytes_u16(b)) == b,
        be_bytes_u16(from_be_bytes_u16(b)) == b,
{
    assert(le_bytes_u16(from_le_bytes_u16(b)) =~= b);
    assert(be_bytes_u16(from_be_bytes_u16(b)) =~= b);
}

/// The 4 little-endian bytes of `v`: least significant byte first.
pub open spec fn le_bytes_u32(v: u32) -> Seq<u8> {
    seq![
        (v % 0x100) as u8,
        ((v / 0x100) % 0x100) as u8,
        ((v / 0x10000) % 0x100) as u8,
        (v / 0x1000000) as u8,
    ]
}

/// The 4 big-endian bytes of `v`: most significant byte first.
pub open spec fn be_bytes_u32(v: u32) -> Seq<u8> {
    seq![
        (v / 0x1000000) as u8,
        ((v / 0x10000) % 0x100) as u8,
        ((v / 0x100) % 0x100) as u8,
        (v % 0x100) as u8,
    ]
}

/// The value of 4 bytes read least significant byte first.
pub open spec fn from_le_bytes_u32(b: Seq<u8>) -> u32
    recommends
        b.len() == 4,
{
    (b[0] + b[1] * 0x100 + b[2] * 0x10000 + b[3] * 0x1000000) as u32
}

/// The value of 4 bytes read most significant byte first.
pub open spec fn from_be_bytes_u32(b: Seq<u8>) -> u32
    recommends
        b.len() == 4,
{
    (b[3] + b[2] * 0x100 + b[1] * 0x10000 + b[0] * 0x1000000) as u32
}

/// Reading back the little- or big-endian bytes of a value gives the value.
pub proof fn lemma_u32_bytes_roundtrip(v: u32)
    ensures
        from_le_bytes_u32(le_bytes_u32(v)) == v,
        from_be_bytes_u32(be_bytes_u32(v)) == v,
        le_bytes_u32(v).len() == 4,
        be_bytes_u32(v).len() == 4,
{
    let x0: u32 = (v % 0x100) as u32;
    let x1: u32 = ((v / 0x100) % 0x100) as u32;
    let x2: u32 = ((v / 0x10000) % 0x100) as u32;
    let x3: u32 = (v / 0x1000000) as u32;
    assert(
        x0 + x1 * 0x100 + x2 * 0x10000 + x3 * 0x1000000 == v
            && x0 < 0x100
            && x1 < 0x100
            && x2 < 0x100
            && x3 < 0x100
    ) by (bit_vector)
        requires
            x0 == v % 0x100,
            x1 == (v / 0x100) % 0x100,
            x2 == (v / 0x10000) % 0x100,
            x3 == v / 0x1000000;
}

/// Re-encoding a decoded 4-byte sequence reproduces the bytes.
pub proof fn lemma_u32_value_roundtrip(b: Seq<u8>)
    requires
        b.len() == 4,
    ensures
        le_bytes_u32(from_le_bytes_u32(b)) == b,
        be_bytes_u32(from_be_bytes_u32(b)) == b,
{
    let x0: u32 = b[0] as u32;
    let x1: u32 = b[1] as u32;
    let x2: u32 = b[2] as u32;
    let x3: u32 = b[3] as u32;
    let w: u32 = from_le_bytes_u32(b);
    let z: u32 = from_be_bytes_u32(b);
    assert(
        w == x0 + x1 * 0x100 + x2 * 0x10000 + x3 * 0x1000000
            && z == x3 + x2 * 0x100 + x1 * 0x10000 + x0 * 0x1000000
    );
    assert(
        (w % 0x100) == x0
            && ((w / 0x100) % 0x100) == x1
            && ((w / 0x10000) % 0x100) == x2
            && (w / 0x1000000) == x3
    ) by (bit_vector)
        requires
            w == x0 + x1 * 0x100 + x2 * 0x10000 + x3 * 0x1000000,
            x0 < 0x100,
            x1 < 0x100,
            x2 < 0x100,
            x3 < 0x100;
    assert(
        (z % 0x100) == x3
            && ((z / 0x100) % 0x100) == x2
            && ((z / 0x10000) % 0x100) == x1
            && (z / 0x1000000) == x0
    ) by (bit_vector)
        requires
            z == x3 + x2 * 0x100 + x1 * 0x10000 + x0 * 0x1000000,
            x0 < 0x100,
            x1 < 0x100,
            x2 < 0x100,
            x3 < 0x100;
    assert(le_bytes_u32(w) =~= b);
    assert(be_bytes_u32(z) =~= b);
}

/// The 8 little-endian bytes of `v`: least significant byte first.
pub open spec fn le_bytes_u64(v: u64) -> Seq<u8> {
    seq![
        (v % 0x100) as u8,
        ((v / 0x100) % 0x100) as u8,
        ((v / 0x10000) % 0x100) as u8,
        ((v / 0x1000000) % 0x100) as u8,
        ((v / 0x100000000) % 0x100) as u8,
        ((v / 0x10000000000) % 0x100) as u8,
        ((v / 0x1000000000000) % 0x100) as u8,
        (v / 0x100000000000000) as u8,
    ]
}

/// The 8 big-endian bytes of `v`: most significant byte first.
pub open spec fn be_bytes_u64(v: u64) -> Seq<u8> {
    seq![
        (v / 0x100000000000000) as u8,
        ((v / 0x1000000000000) % 0x100) as u8,
        ((v / 0x10000000000) % 0x100) as u8,
        ((v / 0x100000000) % 0x100) as u8,
        ((v / 0x1000000) % 0x100) as u8,
        ((v / 0x10000) % 0x100) as u8,
        ((v / 0x100) % 0x100) as u8,
        (v % 0x100) as u8,
    ]
}

/// The value of 8 bytes read least significant byte first.
pub open spec fn from_le_bytes_u64(b: Seq<u8>) -> u64
    recommends
        b.len() == 8,
{
    (
        b[0]
            + b[1] * 0x100
            + b[2] * 0x10000
            + b[3] * 0x1000000
            + b[4] * 0x100000000
            + b[5] * 0x10000000000
            + b[6] * 0x1000000000000
            + b[7] * 0x100000000000000
    ) as u64
}

/// The value of 8 bytes read most significant byte first.
pub open spec fn from_be_bytes_u64(b: Seq<u8>) -> u64
    recommends
        b.len() == 8,
{
    (
        b[7]
            + b[6] * 0x100
            + b[5] * 0x10000
            + b[4] * 0x1000000
            + b[3] * 0x100000000
            + b[2] * 0x10000000000
            + b[1] * 0x1000000000000
            + b[0] * 0x100000000000000
    ) as u64
}

/// Reading back the little- or big-endian bytes of a value gives the value.
pub proof fn lemma_u64_bytes_roundtrip(v: u64)
    ensures
        from_le_bytes_u64(le_bytes_u64(v)) == v,
        from_be_bytes_u64(be_bytes_u64(v)) == v,
        le_bytes_u64(v).len() == 8,
        be_bytes_u64(v).len() == 8,
{
    let x0: u64 = (v % 0x100) as u64;
    let x1: u64 = ((v / 0x100) % 0x100) as u64;
    let x2: u64 = ((v / 0x10000) % 0x100) as u64;
    let x3: u64 = ((v / 0x1000000) % 0x100) as u64;
    let x4: u64 = ((v / 0x100000000) % 0x100) as u64;
    let x5: u64 = ((v / 0x10000000000) % 0x100) as u64;
    let x6: u64 = ((v / 0x1000000000000) % 0x100) as u64;
    let x7: u64 = (v / 0x100000000000000) as u64;
    assert(
        x0
            + x1 * 0x100
            + x2 * 0x10000
            + x3 * 0x1000000
            + x4 * 0x100000000
            + x5 * 0x10000000000
            + x6 * 0x1000000000000
            + x7 * 0x100000000000000 == v
            && x0 < 0x100
            && x1 < 0x100
            && x2 < 0x100
            && x3 < 0x100
            && x4 < 0x100
            && x5 < 0x100
            && x6 < 0x100
            && x7 < 0x100
    ) by (bit_vector)
        requires
            x0 == v % 0x100,
            x1 == (v / 0x100) % 0x100,
            x2 == (v / 0x10000) % 0x100,
            x3 == (v / 0x1000000) % 0x100,
            x4 == (v / 0x100000000) % 0x100,
            x5 == (v / 0x10000000000) % 0x100,
            x6 == (v / 0x1000000000000) % 0x100,
            x7 == v / 0x100000000000000;
}

/// Re-encoding a decoded 8-byte sequence reproduces the bytes.
pub proof fn lemma_u64_value_roundtrip(b: Seq<u8>)
    requires
        b.len() == 8,
    ensures
        le_bytes_u64(from_le_bytes_u64(b)) == b,
        be_bytes_u64(from_be_bytes_u64(b)) == b,
{
    let x0: u64 = b[0] as u64;
    let x1: u64 = b[1] as u64;
    let x2: u64 = b[2] as u64;
    let x3: u64 = b[3] as u64;
    let x4: u64 = b[4] as u64;
    let x5: u64 = b[5] as u64;
    let x6: u64 = b[6] as u64;
    let x7: u64 = b[7] as u64;
    let w: u64 = from_le_bytes_u64(b);
    let z: u64 = from_be_bytes_u64(b);
    assert(
        w == x0
            + x1 * 0x100
            + x2 * 0x10000
            + x3 * 0x1000000
            + x4 * 0x100000000
            + x5 * 0x10000000000
            + x6 * 0x1000000000000
            + x7 * 0x100000000000000
            && z == x7
                + x6 * 0x100
                + x5 * 0x10000
                + x4 * 0x1000000
                + x3 * 0x100000000
                + x2 * 0x10000000000
                + x1 * 0x1000000000000
                + x0 * 0x100000000000000
    );
    assert(
        (w % 0x100) == x0
            && ((w / 0x100) % 0x100) == x1
            && ((w / 0x10000) % 0x100) == x2
            && ((w / 0x1000000) % 0x100) == x3
            && ((w / 0x100000000) % 0x100) == x4
            && ((w / 0x10000000000) % 0x100) == x5
            && ((w / 0x1000000000000) % 0x100) == x6
            && (w / 0x100000000000000) == x7
    ) by (bit_vector)
        requires
            w == x0
                + x1 * 0x100
                + x2 * 0x10000
                + x3 * 0x1000000
                + x4 * 0x100000000
                + x5 * 0x10000000000
                + x6 * 0x1000000000000
                + x7 * 0x100000000000000,
            x0 < 0x100,
            x1 < 0x100,
            x2 < 0x100,
            x3 < 0x100,
            x4 < 0x100,
            x5 < 0x100,
            x6 < 0x100,
            x7 < 0x100;
    assert(
        (z % 0x100) == x7
            && ((z / 0x100) % 0x100) == x6
            && ((z / 0x10000) % 0x100) == x5
            && ((z / 0x1000000) % 0x100) == x4
            && ((z / 0x100000000) % 0x100) == x3
            && ((z / 0x10000000000) % 0x100) == x2
            && ((z / 0x1000000000000) % 0x100) == x1
            && (z / 0x100000000000000) == x0
    ) by (bit_vector)
        requires
            z == x7
                + x6 * 0x100
                + x5 * 0x10000
                + x4 * 0x1000000
                + x3 * 0x100000000
                + x2 * 0x10000000000
                + x1 * 0x1000000000000
                + x0 * 0x100000000000000,
            x0 < 0x100,
            x1 < 0x100,
            x2 < 0x100,
            x3 < 0x100,
            x4 < 0x100,
            x5 < 0x100,
            x6 < 0x100,
            x7 < 0x100;
    assert(le_bytes_u64(w) =~= b);
    assert(be_bytes_u64(z) =~= b);
}

/// Whether the executing machine stores multi-byte integers least
/// significant byte first. vstd's `endianness()` stands for the byte order of
/// the hardware the code runs on: one order, the same for every value and
/// every call.
pub open spec fn native_little() -> bool {
    vstd::endian::endianness() is Little
}

/// The 2 bytes of `v` in the machine's byte order.
pub open spec fn ne_bytes_u16(v: u16) -> Seq<u8> {
    if native_little() {
        le_bytes_u16(v)
    } else {
        be_bytes_u16(v)
    }
}

/// The 4 bytes of `v` in the machine's byte order.
pub open spec fn ne_bytes_u32(v: u32) -> Seq<u8> {
    if native_little() {
        le_bytes_u32(v)
    } else {
        be_bytes_u32(v)
    }
}

/// The 8 bytes of `v` in the machine's byte order.
pub open spec fn ne_bytes_u64(v: u64) -> Seq<u8> {
    if native_little() {
        le_bytes_u64(v)
    } else {
        be_bytes_u64(v)
    }
}

/// The target's native-endian bytes of `value`, from `u16::to_ne_bytes`.
///
/// The bytes are in the machine's one byte order, `native_little()`.
#[verifier::external_body]
pub(crate) fn u16_native_bytes(value: u16) -> (r: [u8; 2])
    ensures
        r@ == le_bytes_u16(value) || r@ == be_bytes_u16(value),
        r@ == ne_bytes_u16(value),
{
    value.to_ne_bytes()
}

/// The `u16` whose native-endian bytes are `bytes`, from `u16::from_ne_bytes`.
///
/// The bytes are read in the machine's one byte order, `native_little()`.
#[verifier::external_body]
pub(crate) fn u16_from_native_bytes(bytes: [u8; 2]) -> (r: u16)
    ensures
        bytes@ == le_bytes_u16(r) || bytes@ == be_bytes_u16(r),
        bytes@ == ne_bytes_u16(r),
{
    u16::from_ne_bytes(bytes)
}

/// The `u32` whose native-endian bytes are `bytes`, from `u32::from_ne_bytes`.
///
/// The bytes are read in the machine's one byte order, `native_little()`.
#[verifier::external_body]
pub(crate) fn u32_from_native_bytes(bytes: [u8; 4]) -> (r: u32)
    ensures
        bytes@ == le_bytes_u32(r) || bytes@ == be_bytes_u32(r),
        bytes@ == ne_bytes_u32(r),
{
    u32::from_ne_bytes(bytes)
}

/// The target's native-endian bytes of `value`, from `u32::to_ne_bytes`.
///
/// The bytes are in the machine's one byte order, `native_little()`.
#[verifier::external_body]
pub(crate) fn u32_native_bytes(value: u32) -> (r: [u8; 4])
    ensures
        r@ == le_bytes_u32(value) || r@ == be_bytes_u32(value),
        r@ == ne_bytes_u32(value),
{
    value.to_ne_bytes()
}

/// The target's native-endian bytes of `value`, from `u64::to_ne_bytes`.
///
/// The bytes are in the machine's one byte order, `native_little()`.
#[verifier::external_body]
fn u64_native_bytes(value: u64) -> (r: [u8; 8])
    ensures
        r@ == le_bytes_u64(value) || r@ == be_bytes_u64(value),
        r@ == ne_bytes_u64(value),
{
    value.to_ne_bytes()
}

/// Native-endian `u8` wire storage.
#[derive(Clone, Copy)]
pub struct U8(pub(crate) u8);

impl U8 {
    /// The stored native value.
    pub closed spec fn spec_value(&self) -> u8 {
        self.0
    }

    pub fn new(value: u8) -> (r: Self)
        ensures
            r.spec_value() == value,
    {
        U8(value)
    }

    pub fn get(&self) -> (r: u8)
        ensures
            r == self.spec_value(),
    {
        self.0
    }

    /// Stores this value into one exact-width native-endian field slice.
    pub fn store(&self, destination: &mut [u8]) -> (r: Result<(), LayoutError>)
        ensures
            stored_exactly(old(destination)@, final(destination)@, seq![self.spec_value()], r),
    {
        let bytes = [self.0];
        assert(bytes@ =~= seq![self.spec_value()]);
        store_exact(destination, bytes.as_slice())
    }

    /// Stores into an already preflighted exact-width selected slice.
    pub fn store_preflighted(&self, destination: &mut [u8])
        requires
            old(destination)@.len() == 1,
        ensures
            final(destination)@ == seq![self.spec_value()],
    {
        let bytes = [self.0];
        assert(bytes@ =~= seq![self.spec_value()]);
        copy_all(destination, bytes.as_slice());
    }
}

/// Native-endian `i8` wire storage.
#[derive(Clone, Copy)]
pub struct I8(pub(crate) i8);

impl I8 {
    /// The stored native value.
    pub closed spec fn spec_value(&self) -> i8 {
        self.0
    }

    pub fn new(value: i8) -> (r: Self)
        ensures
            r.spec_value() == value,
    {
        I8(value)
    }

    pub fn get(&self) -> (r: i8)
        ensures
            r == self.spec_value(),
    {
        self.0
    }

    /// Stores this value into one exact-width native-endian field slice.
    pub fn store(&self, destination: &mut [u8]) -> (r: Result<(), LayoutError>)
        ensures
            stored_exactly(
                old(destination)@,
                final(destination)@,
                seq![self.spec_value() as u8],
                r,
            ),
    {
        let bytes = [self.0 as u8];
        assert(bytes@ =~= seq![self.spec_value() as u8]);
        store_exact(destination, bytes.as_slice())
    }

    /// Stores into an already preflighted exact-width selected slice.
    pub fn store_preflighted(&self, destination: &mut [u8])
        requires
            old(destination)@.len() == 1,
        ensures
            final(destination)@ == seq![self.spec_value() as u8],
    {
        let bytes = [self.0 as u8];
        assert(bytes@ =~= seq![self.spec_value() as u8]);
        copy_all(destination, bytes.as_slice());
    }
}

/// Native-endian `u16` wire storage.
#[derive(Clone, Copy)]
pub struct NativeU16(pub(crate) u16);

impl NativeU16 {
    /// The stored native value.
    pub closed spec fn spec_value(&self) -> u16 {
        self.0
    }

    pub fn new(value: u16) -> (r: Self)
        ensures
            r.spec_value() == value,
    {
        NativeU16(value)
    }

    pub fn get(&self) -> (r: u16)
        ensures
            r == self.spec_value(),
    {
        self.0
    }

    /// Stores this value into one exact-width native-endian field slice.
    pub fn store(&self, destination: &mut [u8]) -> (r: Result<(), LayoutError>)
        ensures
            stored_either(
                old(destination)@,
                final(destination)@,
                le_bytes_u16(self.spec_value()),
                be_bytes_u16(self.spec_value()),
                r,
            ),
            stored_exactly(old(destination)@, final(destination)@, ne_bytes_u16(self.spec_value()), r),
    {
        let bytes = u16_native_bytes(self.0);
        store_exact(destination, bytes.as_slice())
    }

    /// Stores into an already preflighted exact-width selected slice.
    pub fn store_preflighted(&self, destination: &mut [u8])
        requires
            old(destination)@.len() == 2,
        ensures
            final(destination)@ == le_bytes_u16(self.spec_value())
                || final(destination)@ == be_bytes_u16(self.spec_value()),
            final(destination)@ == ne_bytes_u16(self.spec_value()),
    {
        let bytes = u16_native_bytes(self.0);
        copy_all(destination, bytes.as_slice());
    }
}

/// Native-endian `i16` wire storage.
#[derive(Clone, Copy)]
pub struct NativeI16(pub(crate) i16);

impl NativeI16 {
    /// The stored native value.
    pub closed spec fn spec_value(&self) -> i16 {
        self.0
    }

    pub fn new(value: i16) -> (r: Self)
        ensures
            r.spec_value() == value,
    {
        NativeI16(value)
    }

    pub fn get(&self) -> (r: i16)
        ensures
            r == self.spec_value(),
    {
        self.0
    }

    /// Stores this value into one exact-width native-endian field slice.
    pub fn store(&self, destination: &mut [u8]) -> (r: Result<(), LayoutError>)
        ensures
            stored_either(
                old(destination)@,
                final(destination)@,
                le_bytes_u16(self.spec_value() as u16),
                be_bytes_u16(self.spec_value() as u16),
                r,
            ),
            stored_exactly(old(destination)@, final(destination)@, ne_bytes_u16(self.spec_value() as u16), r),
    {
        let bytes = u16_native_bytes(self.0 as u16);
        store_exact(destination, bytes.as_slice())
    }

    /// Stores into an already preflighted exact-width selected slice.
    pub fn store_preflighted(&self, destination: &mut [u8])
        requires
            old(destination)@.len() == 2,
        ensures
            final(destination)@ == le_bytes_u16(self.spec_value() as u16)
                || final(destination)@ == be_bytes_u16(self.spec_value() as u16),
            final(destination)@ == ne_bytes_u16(self.spec_value() as u16),
    {
        let bytes = u16_native_bytes(self.0 as u16);
        copy_all(destination, bytes.as_slice());
    }
}

/// Native-endian `u32` wire storage.
#[derive(Clone, Copy)]
pub struct NativeU32(pub(crate) u32);

impl NativeU32 {
    /// The stored native value.
    pub closed spec fn spec_value(&self) -> u32 {
        self.0
    }

    pub fn new(value: u32) -> (r: Self)
        ensures
            r.spec_value() == value,
    {
        NativeU32(value)
    }

    pub fn get(&self) -> (r: u32)
        ensures
            r == self.spec_value(),
    {
        self.0
    }

    /// Stores this value into one exact-width native-endian field slice.
    pub fn store(&self, destination: &mut [u8]) -> (r: Result<(), LayoutError>)
        ensures
            stored_either(
                old(destination)@,
                final(destination)@,
                le_bytes_u32(self.spec_value()),
                be_bytes_u32(self.spec_value()),
                r,
            ),
            stored_exactly(old(destination)@, final(destination)@, ne_bytes_u32(self.spec_value()), r),
    {
        let bytes = u32_native_bytes(self.0);
        store_exact(destination, bytes.as_slice())
    }

    /// Stores into an already preflighted exact-width selected slice.
    pub fn store_preflighted(&self, destination: &mut [u8])
        requires
            old(destination)@.len() == 4,
        ensures
            final(destination)@ == le_bytes_u32(self.spec_value())
                || final(destination)@ == be_bytes_u32(self.spec_value()),
            final(destination)@ == ne_bytes_u32(self.spec_value()),
    {
        let bytes = u32_native_bytes(self.0);
        copy_all(destination, bytes.as_slice());
    }
}

/// Native-endian `i32` wire storage.
#[derive(Clone, Copy)]
pub struct NativeI32(pub(crate) i32);

impl NativeI32 {
    /// The stored native value.
    pub closed spec fn spec_value(&self) -> i32 {
        self.0
    }

    pub fn new(value: i32) -> (r: Self)
        ensures
            r.spec_value() == value,
    {
        NativeI32(value)
    }

    pub fn get(&self) -> (r: i32)
        ensures
            r == self.spec_value(),
    {
        self.0
    }

    /// Stores this value into one exact-width native-endian field slice.
    pub fn store(&self, destination: &mut [u8]) -> (r: Result<(), LayoutError>)
        ensures
            stored_either(
                old(destination)@,
                final(destination)@,
                le_bytes_u32(self.spec_value() as u32),
                be_bytes_u32(self.spec_value() as u32),
                r,
            ),
            stored_exactly(old(destination)@, final(destination)@, ne_bytes_u32(self.spec_value() as u32), r),
    {
        let bytes = u32_native_bytes(self.0 as u32);
        store_exact(destination, bytes.as_slice())
    }

    /// Stores into an already preflighted exact-width selected slice.
    pub fn store_preflighted(&self, destination: &mut [u8])
        requires
            old(destination)@.len() == 4,
        ensures
            final(destination)@ == le_bytes_u32(self.spec_value() as u32)
                || final(destination)@ == be_bytes_u32(self.spec_value() as u32),
            final(destination)@ == ne_bytes_u32(self.spec_value() as u32),
    {
        let bytes = u32_native_bytes(self.0 as u32);
        copy_all(destination, bytes.as_slice());
    }
}

/// Native-endian `u64` wire storage.
#[derive(Clone, Copy)]
pub struct NativeU64(pub(crate) u64);

impl NativeU64 {
    /// The stored native value.
    pub closed spec fn spec_value(&self) -> u64 {
        self.0
    }

    pub fn new(value: u64) -> (r: Self)
        ensures
            r.spec_value() == value,
    {
        NativeU64(value)
    }

    pub fn get(&self) -> (r: u64)
        ensures
            r == self.spec_value(),
    {
        self.0
    }

    /// Stores this value into one exact-width native-endian field slice.
    pub fn store(&self, destination: &mut [u8]) -> (r: Result<(), LayoutError>)
        ensures
            stored_either(
                old(destination)@,
                final(destination)@,
                le_bytes_u64(self.spec_value()),
                be_bytes_u64(self.spec_value()),
                r,
            ),
            stored_exactly(old(destination)@, final(destination)@, ne_bytes_u64(self.spec_value()), r),
    {
        let bytes = u64_native_bytes(self.0);
        store_exact(destination, bytes.as_slice())
    }

    /// Stores into an already preflighted exact-width selected slice.
    pub fn store_preflighted(&self, destination: &mut [u8])
        requires
            old(destination)@.len() == 8,
        ensures
            final(destination)@ == le_bytes_u64(self.spec_value())
                || final(destination)@ == be_bytes_u64(self.spec_value()),
            final(destination)@ == ne_bytes_u64(self.spec_value()),
    {
        let bytes = u64_native_bytes(self.0);
        copy_all(destination, bytes.as_slice());
    }
}

/// Native-endian `i64` wire storage.
#[derive(Clone, Copy)]
pub struct NativeI64(pub(crate) i64);

impl NativeI64 {
    /// The stored native value.
    pub closed spec fn spec_value(&self) -> i64 {
        self.0
    }

    pub fn new(value: i64) -> (r: Self)
        ensures
            r.spec_value() == value,
    {
        NativeI64(value)
    }

    pub fn get(&self) -> (r: i64)
        ensures
            r == self.spec_value(),
    {
        self.0
    }

    /// Stores this value into one exact-width native-endian field slice.
    pub fn store(&self, destination: &mut [u8]) -> (r: Result<(), LayoutError>)
        ensures
            stored_either(
                old(destination)@,
                final(destination)@,
                le_bytes_u64(self.spec_value() as u64),
                be_bytes_u64(self.spec_value() as u64),
                r,
            ),
            stored_exactly(old(destination)@, final(destination)@, ne_bytes_u64(self.spec_value() as u64), r),
    {
        let bytes = u64_native_bytes(self.0 as u64);
        store_exact(destination, bytes.as_slice())
    }

    /// Stores into an already preflighted exact-width selected slice.
    pub fn store_preflighted(&self, destination: &mut [u8])
        requires
            old(destination)@.len() == 8,
        ensures
            final(destination)@ == le_bytes_u64(self.spec_value() as u64)
                || final(destination)@ == be_bytes_u64(self.spec_value() as u64),
            final(destination)@ == ne_bytes_u64(self.spec_value() as u64),
    {
        let bytes = u64_native_bytes(self.0 as u64);
        copy_all(destination, bytes.as_slice());
    }
}

/// Explicitly little-endian `u16` wire storage with the alignment of `u16`.
#[derive(Clone, Copy)]
pub struct LittleU16 {
    _align: [u16; 0],
    value: [u8; 2],
}

impl LittleU16 {
    /// The stored wire bytes.
    pub closed spec fn spec_bytes(&self) -> Seq<u8> {
        self.value@
    }

    pub fn new(value: u16) -> (r: Self)
        ensures
            r.spec_bytes() == le_bytes_u16(value),
    {
        let raw: u16 = value;
        LittleU16 { _align: [], value: [(raw % 0x100) as u8, (raw / 0x100) as u8] }
    }

    pub fn get(&self) -> (r: u16)
        ensures
            r == from_le_bytes_u16(self.spec_bytes()),
    {
        let raw: u16 = (self.value[0] as u16) + (self.value[1] as u16) * 0x100;
        raw
    }

    pub fn bytes(&self) -> (r: &[u8; 2])
        ensures
            r@ == self.spec_bytes(),
    {
        &self.value
    }

    /// Stores this value into one exact-width selected field slice.
    pub fn store(&self, destination: &mut [u8]) -> (r: Result<(), LayoutError>)
        ensures
            stored_exactly(old(destination)@, final(destination)@, self.spec_bytes(), r),
    {
        store_exact(destination, self.value.as_slice())
    }

    /// Stores into an already preflighted exact-width selected slice.
    pub fn store_preflighted(&self, destination: &mut [u8])
        requires
            old(destination)@.len() == 2,
        ensures
            final(destination)@ == self.spec_bytes(),
    {
        copy_all(destination, self.value.as_slice());
    }
}

/// Explicitly little-endian `i16` wire storage with the alignment of `i16`.
#[derive(Clone, Copy)]
pub struct LittleI16 {
    _align: [i16; 0],
    value: [u8; 2],
}

impl LittleI16 {
    /// The stored wire bytes.
    pub closed spec fn spec_bytes(&self) -> Seq<u8> {
        self.value@
    }

    pub fn new(value: i16) -> (r: Self)
        ensures
            r.spec_bytes() == le_bytes_u16(value as u16),
    {
        let raw: u16 = value as u16;
        LittleI16 { _align: [], value: [(raw % 0x100) as u8, (raw / 0x100) as u8] }
    }

    pub fn get(&self) -> (r: i16)
        ensures
            r == from_le_bytes_u16(self.spec_bytes()) as i16,
    {
        let raw: u16 = (self.value[0] as u16) + (self.value[1] as u16) * 0x100;
        raw as i16
    }

    pub fn bytes(&self) -> (r: &[u8; 2])
        ensures
            r@ == self.spec_bytes(),
    {
        &self.value
    }

    /// Stores this value into one exact-width selected field slice.
    pub fn store(&self, destination: &mut [u8]) -> (r: Result<(), LayoutError>)
        ensures
            stored_exactly(old(destination)@, final(destination)@, self.spec_bytes(), r),
    {
        store_exact(destination, self.value.as_slice())
    }

    /// Stores into an already preflighted exact-width selected slice.
    pub fn store_preflighted(&self, destination: &mut [u8])
        requires
            old(destination)@.len() == 2,
        ensures
            final(destination)@ == self.spec_bytes(),
    {
        copy_all(destination, self.value.as_slice());
    }
}

/// Explicitly big-endian `u16` wire storage with the alignment of `u16`.
#[derive(Clone, Copy)]
pub struct BigU16 {
    _align: [u16; 0],
    value: [u8; 2],
}

impl BigU16 {
    /// The stored wire bytes.
    pub closed spec fn spec_bytes(&self) -> Seq<u8> {
        self.value@
    }

    pub fn new(value: u16) -> (r: Self)
        ensures
            r.spec_bytes() == be_bytes_u16(value),
    {
        let raw: u16 = value;
        BigU16 { _align: [], value: [(raw / 0x100) as u8, (raw % 0x100) as u8] }
    }

    pub fn get(&self) -> (r: u16)
        ensures
            r == from_be_bytes_u16(self.spec_bytes()),
    {
        let raw: u16 = (self.value[1] as u16) + (self.value[0] as u16) * 0x100;
        raw
    }

    pub fn bytes(&self) -> (r: &[u8; 2])
        ensures
            r@ == self.spec_bytes(),
    {
        &self.value
    }

    /// Stores this value into one exact-width selected field slice.
    pub fn store(&self, destination: &mut [u8]) -> (r: Result<(), LayoutError>)
        ensures
            stored_exactly(old(destination)@, final(destination)@, self.spec_bytes(), r),
    {
        store_exact(destination, self.value.as_slice())
    }

    /// Stores into an already preflighted exact-width selected slice.
    pub fn store_preflighted(&self, destination: &mut [u8])
        requires
            old(destination)@.len() == 2,
        ensures
            final(destination)@ == self.spec_bytes(),
    {
        copy_all(destination, self.value.as_slice());
    }
}

/// Explicitly big-endian `i16` wire storage with the alignment of `i16`.
#[derive(Clone, Copy)]
pub struct BigI16 {
    _align: [i16; 0],
    value: [u8; 2],
}

impl BigI16 {
    /// The stored wire bytes.
    pub closed spec fn spec_bytes(&self) -> Seq<u8> {
        self.value@
    }

    pub fn new(value: i16) -> (r: Self)
        ensures
            r.spec_bytes() == be_bytes_u16(value as u16),
    {
        let raw: u16 = value as u16;
        BigI16 { _align: [], value: [(raw / 0x100) as u8, (raw % 0x100) as u8] }
    }

    pub fn get(&self) -> (r: i16)
        ensures
            r == from_be_bytes_u16(self.spec_bytes()) as i16,
    {
        let raw: u16 = (self.value[1] as u16) + (self.value[0] as u16) * 0x100;
        raw as i16
    }

    pub fn bytes(&self) -> (r: &[u8; 2])
        ensures
            r@ == self.spec_bytes(),
    {
        &self.value
    }

    /// Stores this value into one exact-width selected field slice.
    pub fn store(&self, destination: &mut [u8]) -> (r: Result<(), LayoutError>)
        ensures
            stored_exactly(old(destination)@, final(destination)@, self.spec_bytes(), r),
    {
        store_exact(destination, self.value.as_slice())
    }

    /// Stores into an already preflighted exact-width selected slice.
    pub fn store_preflighted(&self, destination: &mut [u8])
        requires
            old(destination)@.len() == 2,
        ensures
            final(destination)@ == self.spec_bytes(),
    {
        copy_all(destination, self.value.as_slice());
    }
}

/// Explicitly little-endian `u32` wire storage with the alignment of `u32`.
#[derive(Clone, Copy)]
pub struct LittleU32 {
    _align: [u32; 0],
    value: [u8; 4],
}

impl LittleU32 {
    /// The stored wire bytes.
    pub closed spec fn spec_bytes(&self) -> Seq<u8> {
        self.value@
    }

    pub fn new(value: u32) -> (r: Self)
        ensures
            r.spec_bytes() == le_bytes_u32(value),
    {
        let raw: u32 = value;
        LittleU32 { _align: [], value: [
            (raw % 0x100) as u8,
            ((raw / 0x100) % 0x100) as u8,
            ((raw / 0x10000) % 0x100) as u8,
            (raw / 0x1000000) as u8,
        ] }
    }

    pub fn get(&self) -> (r: u32)
        ensures
            r == from_le_bytes_u32(self.spec_bytes()),
    {
        let raw: u32 = (self.value[0] as u32)
            + (self.value[1] as u32) * 0x100
            + (self.value[2] as u32) * 0x10000
            + (self.value[3] as u32) * 0x1000000;
        raw
    }

    pub fn bytes(&self) -> (r: &[u8; 4])
        ensures
            r@ == self.spec_bytes(),
    {
        &self.value
    }

    /// Stores this value into one exact-width selected field slice.
    pub fn store(&self, destination: &mut [u8]) -> (r: Result<(), LayoutError>)
        ensures
            stored_exactly(old(destination)@, final(destination)@, self.spec_bytes(), r),
    {
        store_exact(destination, self.value.as_slice())
    }

    /// Stores into an already preflighted exact-width selected slice.
    pub fn store_preflighted(&self, destination: &mut [u8])
        requires
            old(destination)@.len() == 4,
        ensures
            final(destination)@ == self.spec_bytes(),
    {
        copy_all(destination, self.value.as_slice());
    }
}

/// Explicitly little-endian `i32` wire storage with the alignment of `i32`.
#[derive(Clone, Copy)]
pub struct LittleI32 {
    _align: [i32; 0],
    value: [u8; 4],
}

impl LittleI32 {
    /// The stored wire bytes.
    pub closed spec fn spec_bytes(&self) -> Seq<u8> {
        self.value@
    }

    pub fn new(value: i32) -> (r: Self)
        ensures
            r.spec_bytes() == le_bytes_u32(value as u32),
    {
        let raw: u32 = value as u32;
        LittleI32 { _align: [], value: [
            (raw % 0x100) as u8,
            ((raw / 0x100) % 0x100) as u8,
            ((raw / 0x10000) % 0x100) as u8,
            (raw / 0x1000000) as u8,
        ] }
    }

    pub fn get(&self) -> (r: i32)
        ensures
            r == from_le_bytes_u32(self.spec_bytes()) as i32,
    {
        let raw: u32 = (self.value[0] as u32)
            + (self.value[1] as u32) * 0x100
            + (self.value[2] as u32) * 0x10000
            + (self.value[3] as u32) * 0x1000000;
        raw as i32
    }

    pub fn bytes(&self) -> (r: &[u8; 4])
        ensures
            r@ == self.spec_bytes(),
    {
        &self.value
    }

    /// Stores this value into one exact-width selected field slice.
    pub fn store(&self, destination: &mut [u8]) -> (r: Result<(), LayoutError>)
        ensures
            stored_exactly(old(destination)@, final(destination)@, self.spec_bytes(), r),
    {
        store_exact(destination, self.value.as_slice())
    }

    /// Stores into an already preflighted exact-width selected slice.
    pub fn store_preflighted(&self, destination: &mut [u8])
        requires
            old(destination)@.len() == 4,
        ensures
            final(destination)@ == self.spec_bytes(),
    {
        copy_all(destination, self.value.as_slice());
    }
}

/// Explicitly big-endian `u32` wire storage with the alignment of `u32`.
#[derive(Clone, Copy)]
pub struct BigU32 {
    _align: [u32; 0],
    value: [u8; 4],
}

impl BigU32 {
    /// The stored wire bytes.
    pub closed spec fn spec_bytes(&self) -> Seq<u8> {
        self.value@
    }

    pub fn new(value: u32) -> (r: Self)
        ensures
            r.spec_bytes() == be_bytes_u32(value),
    {
        let raw: u32 = value;
        BigU32 { _align: [], value: [
            (raw / 0x1000000) as u8,
            ((raw / 0x10000) % 0x100) as u8,
            ((raw / 0x100) % 0x100) as u8,
            (raw % 0x100) as u8,
        ] }
    }

    pub fn get(&self) -> (r: u32)
        ensures
            r == from_be_bytes_u32(self.spec_bytes()),
    {
        let raw: u32 = (self.value[3] as u32)
            + (self.value[2] as u32) * 0x100
            + (self.value[1] as u32) * 0x10000
            + (self.value[0] as u32) * 0x1000000;
        raw
    }

    pub fn bytes(&self) -> (r: &[u8; 4])
        ensures
            r@ == self.spec_bytes(),
    {
        &self.value
    }

    /// Stores this value into one exact-width selected field slice.
    pub fn store(&self, destination: &mut [u8]) -> (r: Result<(), LayoutError>)
        ensures
            stored_exactly(old(destination)@, final(destination)@, self.spec_bytes(), r),
    {
        store_exact(destination, self.value.as_slice())
    }

    /// Stores into an already preflighted exact-width selected slice.
    pub fn store_preflighted(&self, destination: &mut [u8])
        requires
            old(destination)@.len() == 4,
        ensures
            final(destination)@ == self.spec_bytes(),
    {
        copy_all(destination, self.value.as_slice());
    }
}

/// Explicitly big-endian `i32` wire storage with the alignment of `i32`.
#[derive(Clone, Copy)]
pub struct BigI32 {
    _align: [i32; 0],
    value: [u8; 4],
}

impl BigI32 {
    /// The stored wire bytes.
    pub closed spec fn spec_bytes(&self) -> Seq<u8> {
        self.value@
    }

    pub fn new(value: i32) -> (r: Self)
        ensures
            r.spec_bytes() == be_bytes_u32(value as u32),
    {
        let raw: u32 = value as u32;
        BigI32 { _align: [], value: [
            (raw / 0x1000000) as u8,
            ((raw / 0x10000) % 0x100) as u8,
            ((raw / 0x100) % 0x100) as u8,
            (raw % 0x100) as u8,
        ] }
    }

    pub fn get(&self) -> (r: i32)
        ensures
            r == from_be_bytes_u32(self.spec_bytes()) as i32,
    {
        let raw: u32 = (self.value[3] as u32)
            + (self.value[2] as u32) * 0x100
            + (self.value[1] as u32) * 0x10000
            + (self.value[0] as u32) * 0x1000000;
        raw as i32
    }

    pub fn bytes(&self) -> (r: &[u8; 4])
        ensures
            r@ == self.spec_bytes(),
    {
        &self.value
    }

    /// Stores this value into one exact-width selected field slice.
    pub fn store(&self, destination: &mut [u8]) -> (r: Result<(), LayoutError>)
        ensures
            stored_exactly(old(destination)@, final(destination)@, self.spec_bytes(), r),
    {
        store_exact(destination, self.value.as_slice())
    }

    /// Stores into an already preflighted exact-width selected slice.
    pub fn store_preflighted(&self, destination: &mut [u8])
        requires
            old(destination)@.len() == 4,
        ensures
            final(destination)@ == self.spec_bytes(),
    {
        copy_all(destination, self.value.as_slice());
    }
}

/// Explicitly little-endian `u64` wire storage with the alignment of `u64`.
#[derive(Clone, Copy)]
pub struct LittleU64 {
    _align: [u64; 0],
    value: [u8; 8],
}

impl LittleU64 {
    /// The stored wire bytes.
    pub closed spec fn spec_bytes(&self) -> Seq<u8> {
        self.value@
    }

    pub fn new(value: u64) -> (r: Self)
        ensures
            r.spec_bytes() == le_bytes_u64(value),
    {
        let raw: u64 = value;
        LittleU64 { _align: [], value: [
            (raw % 0x100) as u8,
            ((raw / 0x100) % 0x100) as u8,
            ((raw / 0x10000) % 0x100) as u8,
            ((raw / 0x1000000) % 0x100) as u8,
            ((raw / 0x100000000) % 0x100) as u8,
            ((raw / 0x10000000000) % 0x100) as u8,
            ((raw / 0x1000000000000) % 0x100) as u8,
            (raw / 0x100000000000000) as u8,
        ] }
    }

    pub fn get(&self) -> (r: u64)
        ensures
            r == from_le_bytes_u64(self.spec_bytes()),
    {
        let raw: u64 = (self.value[0] as u64)
            + (self.value[1] as u64) * 0x100
            + (self.value[2] as u64) * 0x10000
            + (self.value[3] as u64) * 0x1000000
            + (self.value[4] as u64) * 0x100000000
            + (self.value[5] as u64) * 0x10000000000
            + (self.value[6] as u64) * 0x1000000000000
            + (self.value[7] as u64) * 0x100000000000000;
        raw
    }

    pub fn bytes(&self) -> (r: &[u8; 8])
        ensures
            r@ == self.spec_bytes(),
    {
        &self.value
    }

    /// Stores this value into one exact-width selected field slice.
    pub fn store(&self, destination: &mut [u8]) -> (r: Result<(), LayoutError>)
        ensures
            stored_exactly(old(destination)@, final(destination)@, self.spec_bytes(), r),
    {
        store_exact(destination, self.value.as_slice())
    }

    /// Stores into an already preflighted exact-width selected slice.
    pub fn store_preflighted(&self, destination: &mut [u8])
        requires
            old(destination)@.len() == 8,
        ensures
            final(destination)@ == self.spec_bytes(),
    {
        copy_all(destination, self.value.as_slice());
    }
}

/// Explicitly little-endian `i64` wire storage with the alignment of `i64`.
#[derive(Clone, Copy)]
pub struct LittleI64 {
    _align: [i64; 0],
    value: [u8; 8],
}

impl LittleI64 {
    /// The stored wire bytes.
    pub closed spec fn spec_bytes(&self) -> Seq<u8> {
        self.value@
    }

    pub fn new(value: i64) -> (r: Self)
        ensures
            r.spec_bytes() == le_bytes_u64(value as u64),
    {
        let raw: u64 = value as u64;
        LittleI64 { _align: [], value: [
            (raw % 0x100) as u8,
            ((raw / 0x100) % 0x100) as u8,
            ((raw / 0x10000) % 0x100) as u8,
            ((raw / 0x1000000) % 0x100) as u8,
            ((raw / 0x100000000) % 0x100) as u8,
            ((raw / 0x10000000000) % 0x100) as u8,
            ((raw / 0x1000000000000) % 0x100) as u8,
            (raw / 0x100000000000000) as u8,
        ] }
    }

    pub fn get(&self) -> (r: i64)
        ensures
            r == from_le_bytes_u64(self.spec_bytes()) as i64,
    {
        let raw: u64 = (self.value[0] as u64)
            + (self.value[1] as u64) * 0x100
            + (self.value[2] as u64) * 0x10000
            + (self.value[3] as u64) * 0x1000000
            + (self.value[4] as u64) * 0x100000000
            + (self.value[5] as u64) * 0x10000000000
            + (self.value[6] as u64) * 0x1000000000000
            + (self.value[7] as u64) * 0x100000000000000;
        raw as i64
    }

    pub fn bytes(&self) -> (r: &[u8; 8])
        ensures
            r@ == self.spec_bytes(),
    {
        &self.value
    }

    /// Stores this value into one exact-width selected field slice.
    pub fn store(&self, destination: &mut [u8]) -> (r: Result<(), LayoutError>)
        ensures
            stored_exactly(old(destination)@, final(destination)@, self.spec_bytes(), r),
    {
        store_exact(destination, self.value.as_slice())
    }

    /// Stores into an already preflighted exact-width selected slice.
    pub fn store_preflighted(&self, destination: &mut [u8])
        requires
            old(destination)@.len() == 8,
        ensures
            final(destination)@ == self.spec_bytes(),
    {
        copy_all(destination, self.value.as_slice());
    }
}

/// Explicitly big-endian `u64` wire storage with the alignment of `u64`.
#[derive(Clone, Copy)]
pub struct BigU64 {
    _align: [u64; 0],
    value: [u8; 8],
}

impl BigU64 {
    /// The stored wire bytes.
    pub closed spec fn spec_bytes(&self) -> Seq<u8> {
        self.value@
    }

    pub fn new(value: u64) -> (r: Self)
        ensures
            r.spec_bytes() == be_bytes_u64(value),
    {
        let raw: u64 = value;
        BigU64 { _align: [], value: [
            (raw / 0x100000000000000) as u8,
            ((raw / 0x1000000000000) % 0x100) as u8,
            ((raw / 0x10000000000) % 0x100) as u8,
            ((raw / 0x100000000) % 0x100) as u8,
            ((raw / 0x1000000) % 0x100) as u8,
            ((raw / 0x10000) % 0x100) as u8,
            ((raw / 0x100) % 0x100) as u8,
            (raw % 0x100) as u8,
        ] }
    }

    pub fn get(&self) -> (r: u64)
        ensures
            r == from_be_bytes_u64(self.spec_bytes()),
    {
        let raw: u64 = (self.value[7] as u64)
            + (self.value[6] as u64) * 0x100
            + (self.value[5] as u64) * 0x10000
            + (self.value[4] as u64) * 0x1000000
            + (self.value[3] as u64) * 0x100000000
            + (self.value[2] as u64) * 0x10000000000
            + (self.value[1] as u64) * 0x1000000000000
            + (self.value[0] as u64) * 0x100000000000000;
        raw
    }

    pub fn bytes(&self) -> (r: &[u8; 8])
        ensures
            r@ == self.spec_bytes(),
    {
        &self.value
    }

    /// Stores this value into one exact-width selected field slice.
    pub fn store(&self, destination: &mut [u8]) -> (r: Result<(), LayoutError>)
        ensures
            stored_exactly(old(destination)@, final(destination)@, self.spec_bytes(), r),
    {
        store_exact(destination, self.value.as_slice())
    }

    /// Stores into an already preflighted exact-width selected slice.
    pub fn store_preflighted(&self, destination: &mut [u8])
        requires
            old(destination)@.len() == 8,
        ensures
            final(destination)@ == self.spec_bytes(),
    {
        copy_all(destination, self.value.as_slice());
    }
}

/// Explicitly big-endian `i64` wire storage with the alignment of `i64`.
#[derive(Clone, Copy)]
pub struct BigI64 {
    _align: [i64; 0],
    value: [u8; 8],
}

impl BigI64 {
    /// The stored wire bytes.
    pub closed spec fn spec_bytes(&self) -> Seq<u8> {
        self.value@
    }

    pub fn new(value: i64) -> (r: Self)
        ensures
            r.spec_bytes() == be_bytes_u64(value as u64),
    {
        let raw: u64 = value as u64;
        BigI64 { _align: [], value: [
            (raw / 0x100000000000000) as u8,
            ((raw / 0x1000000000000) % 0x100) as u8,
            ((raw / 0x10000000000) % 0x100) as u8,
            ((raw / 0x100000000) % 0x100) as u8,
            ((raw / 0x1000000) % 0x100) as u8,
            ((raw / 0x10000) % 0x100) as u8,
            ((raw / 0x100) % 0x100) as u8,
            (raw % 0x100) as u8,
        ] }
    }

    pub fn get(&self) -> (r: i64)
        ensures
            r == from_be_bytes_u64(self.spec_bytes()) as i64,
    {
        let raw: u64 = (self.value[7] as u64)
            + (self.value[6] as u64) * 0x100
            + (self.value[5] as u64) * 0x10000
            + (self.value[4] as u64) * 0x1000000
            + (self.value[3] as u64) * 0x100000000
            + (self.value[2] as u64) * 0x10000000000
            + (self.value[1] as u64) * 0x1000000000000
            + (self.value[0] as u64) * 0x100000000000000;
        raw as i64
    }

    pub fn bytes(&self) -> (r: &[u8; 8])
        ensures
            r@ == self.spec_bytes(),
    {
        &self.value
    }

    /// Stores this value into one exact-width selected field slice.
    pub fn store(&self, destination: &mut [u8]) -> (r: Result<(), LayoutError>)
        ensures
            stored_exactly(old(destination)@, final(destination)@, self.spec_bytes(), r),
    {
        store_exact(destination, self.value.as_slice())
    }

    /// Stores into an already preflighted exact-width selected slice.
    pub fn store_preflighted(&self, destination: &mut [u8])
        requires
            old(destination)@.len() == 8,
        ensures
            final(destination)@ == self.spec_bytes(),
    {
        copy_all(destination, self.value.as_slice());
    }
}

/// The byte that encodes a Boolean: `1` for true, `0` for false.
pub open spec fn bool_byte(value: bool) -> u8 {
    if value {
        1
    } else {
        0
    }
}

/// The logical Boolean of a raw wire byte; only `0` and `1` are declared.
pub open spec fn decoded_bool(raw: u8) -> Option<bool> {
    if raw == 0 {
        Some(false)
    } else if raw == 1 {
        Some(true)
    } else {
        None
    }
}

/// Decoding an encoded Boolean gives it back, and every decodable byte is the
/// encoding of what it decodes to.
pub proof fn lemma_bool_roundtrip(value: bool, raw: u8)
    ensures
        decoded_bool(bool_byte(value)) == Some(value),
        decoded_bool(raw) matches Some(b) ==> bool_byte(b) == raw,
{
}

/// Raw one-byte Boolean representation.
#[derive(Clone, Copy)]
pub struct BoolWire(u8);

impl BoolWire {
    /// The raw stored byte.
    pub closed spec fn spec_raw(&self) -> u8 {
        self.0
    }

    pub fn from_raw(raw: u8) -> (r: Self)
        ensures
            r.spec_raw() == raw,
    {
        BoolWire(raw)
    }

    pub fn raw(&self) -> (r: u8)
        ensures
            r == self.spec_raw(),
    {
        self.0
    }

    /// Returns a logical Boolean only for the two declared wire encodings.
    pub fn decode(&self) -> (r: Option<bool>)
        ensures
            r == decoded_bool(self.spec_raw()),
    {
        match self.0 {
            0 => Some(false),
            1 => Some(true),
            _ => None,
        }
    }

    pub fn encode(value: bool) -> (r: Self)
        ensures
            r.spec_raw() == bool_byte(value),
    {
        BoolWire(if value { 1 } else { 0 })
    }

    /// Stores a proven logical Boolean into one exact-width selected field slice.
    pub fn store(value: bool, destination: &mut [u8]) -> (r: Result<(), LayoutError>)
        ensures
            stored_exactly(old(destination)@, final(destination)@, seq![bool_byte(value)], r),
    {
        let bytes = [if value { 1u8 } else { 0u8 }];
        assert(bytes@ =~= seq![bool_byte(value)]);
        store_exact(destination, bytes.as_slice())
    }

    /// Stores into an already preflighted exact-width selected slice.
    pub fn store_preflighted(value: bool, destination: &mut [u8])
        requires
            old(destination)@.len() == 1,
        ensures
            final(destination)@ == seq![bool_byte(value)],
    {
        let bytes = [if value { 1u8 } else { 0u8 }];
        assert(bytes@ =~= seq![bool_byte(value)]);
        copy_all(destination, bytes.as_slice());
    }
}

/// Reinterpreting a signed value as unsigned and back is the identity.
pub proof fn lemma_signed_reinterpret_roundtrip(a: i8, b: i16, c: i32, d: i64)
    ensures
        (a as u8) as i8 == a,
        (b as u16) as i16 == b,
        (c as u32) as i32 == c,
        (d as u64) as i64 == d,
{
    assert((a as u8) as i8 == a) by (bit_vector);
    assert((b as u16) as i16 == b) by (bit_vector);
    assert((c as u32) as i32 == c) by (bit_vector);
    assert((d as u64) as i64 == d) by (bit_vector);
}

/// Raw scalar-enum storage selected by its declared width and endian.
///
/// Scalar-enum support uses this trait to load and store only the `u8`,
/// `u16`, and `u32` representations accepted by the declaration grammar.
pub trait ScalarWire: Sized {
    type Raw: Copy;

    /// Exact on-wire width.
    spec fn spec_width() -> nat;

    /// Whether `bytes` is a stored encoding of `value` under this wire.
    spec fn encodes(value: Self::Raw, bytes: Seq<u8>) -> bool;

    /// The raw value held by this wire.
    spec fn loaded(&self) -> Self::Raw;

    fn width() -> (r: usize)
        ensures
            r as nat == Self::spec_width(),
    ;

    fn load(&self) -> (r: Self::Raw)
        ensures
            r == self.loaded(),
    ;

    fn store(value: Self::Raw, destination: &mut [u8]) -> (r: Result<(), LayoutError>)
        ensures
            old(destination)@.len() == Self::spec_width() ==> r is Ok && Self::encodes(
                value,
                final(destination)@,
            ),
            old(destination)@.len() != Self::spec_width() ==> r == Err::<(), LayoutError>(
                LayoutError::IncorrectSize {
                    expected: Self::spec_width() as usize,
                    actual: old(destination)@.len() as usize,
                },
            ) && final(destination)@ == old(destination)@,
    ;

    /// Stores a value into an already preflighted exact-width selected slice.
    fn store_preflighted(value: Self::Raw, destination: &mut [u8])
        requires
            old(destination)@.len() == Self::spec_width(),
        ensures
            Self::encodes(value, final(destination)@),
            final(destination)@.len() == Self::spec_width(),
    ;
}

/// Integer wire representation usable as a bounded string length prefix.
pub trait LengthWire: Sized {
    /// Exact on-wire width of the prefix.
    spec fn spec_width() -> nat;

    /// The largest length the prefix can represent.
    spec fn spec_max() -> nat;

    /// The prefix value held by this wire.
    spec fn loaded(&self) -> nat;

    /// Whether `bytes` is a stored encoding of the length `value`.
    spec fn encodes(value: nat, bytes: Seq<u8>) -> bool;

    fn width() -> (r: usize)
        ensures
            r as nat == Self::spec_width(),
    ;

    /// Decodes the prefix without applying the string capacity bound.
    fn load(&self) -> (r: Option<usize>)
        ensures
            match r {
                Some(v) => v as nat == self.loaded(),
                None => self.loaded() > usize::MAX,
            },
    ;

    /// Returns whether this representation can encode `value`.
    fn represents(value: usize) -> (r: bool)
        ensures
            r == (value <= Self::spec_max()),
    ;

    /// Stores one representable value into an exact-width selected prefix slice.
    fn store(value: usize, destination: &mut [u8]) -> (r: Result<(), LayoutError>)
        ensures
            value > Self::spec_max() ==> r == Err::<(), LayoutError>(
                LayoutError::IncorrectSize { expected: Self::spec_max() as usize, actual: value },
            ) && final(destination)@ == old(destination)@,
            value <= Self::spec_max() && old(destination)@.len() == Self::spec_width() ==> r is Ok
                && Self::encodes(value as nat, final(destination)@),
            value <= Self::spec_max() && old(destination)@.len() != Self::spec_width() ==> r
                == Err::<(), LayoutError>(
                LayoutError::IncorrectSize {
                    expected: Self::spec_width() as usize,
                    actual: old(destination)@.len() as usize,
                },
            ) && final(destination)@ == old(destination)@,
    ;

    /// Stores a representable value into an already preflighted exact prefix slice.
    fn store_preflighted(value: usize, destination: &mut [u8])
        requires
            value <= Self::spec_max(),
            old(destination)@.len() == Self::spec_width(),
        ensures
            Self::encodes(value as nat, final(destination)@),
            final(destination)@.len() == Self::spec_width(),
    ;
}

impl ScalarWire for U8 {
    type Raw = u8;

    open spec fn spec_width() -> nat {
        1
    }

    open spec fn encodes(value: u8, bytes: Seq<u8>) -> bool {
        bytes == seq![value]
    }

    open spec fn loaded(&self) -> u8 {
        self.spec_value()
    }

    fn width() -> (r: usize) {
        1
    }

    fn load(&self) -> (r: u8) {
        self.get()
    }

    fn store(value: u8, destination: &mut [u8]) -> (r: Result<(), LayoutError>) {
        U8::new(value).store(destination)
    }

    fn store_preflighted(value: u8, destination: &mut [u8]) {
        U8::new(value).store_preflighted(destination);
    }
}

impl LengthWire for U8 {
    open spec fn spec_width() -> nat {
        1
    }

    open spec fn spec_max() -> nat {
        0xff
    }

    open spec fn loaded(&self) -> nat {
        (self.spec_value()) as nat
    }

    open spec fn encodes(value: nat, bytes: Seq<u8>) -> bool {
        <U8 as ScalarWire>::encodes(value as u8, bytes)
    }

    fn width() -> (r: usize) {
        1
    }

    fn load(&self) -> (r: Option<usize>) {
        Some(self.get() as usize)
    }

    fn represents(value: usize) -> (r: bool) {
        value <= 0xff
    }

    fn store(value: usize, destination: &mut [u8]) -> (r: Result<(), LayoutError>) {
        if value > 0xff {
            return Err(LayoutError::IncorrectSize { expected: 0xff, actual: value });
        }
        U8::new(value as u8).store(destination)
    }

    fn store_preflighted(value: usize, destination: &mut [u8]) {
        U8::new(value as u8).store_preflighted(destination);
    }
}

impl ScalarWire for NativeU16 {
    type Raw = u16;

    open spec fn spec_width() -> nat {
        2
    }

    open spec fn encodes(value: u16, bytes: Seq<u8>) -> bool {
        bytes == ne_bytes_u16(value)
    }

    open spec fn loaded(&self) -> u16 {
        self.spec_value()
    }

    fn width() -> (r: usize) {
        2
    }

    fn load(&self) -> (r: u16) {
        self.get()
    }

    fn store(value: u16, destination: &mut [u8]) -> (r: Result<(), LayoutError>) {
        NativeU16::new(value).store(destination)
    }

    fn store_preflighted(value: u16, destination: &mut [u8]) {
        NativeU16::new(value).store_preflighted(destination);
    }
}

impl LengthWire for NativeU16 {
    open spec fn spec_width() -> nat {
        2
    }

    open spec fn spec_max() -> nat {
        0xffff
    }

    open spec fn loaded(&self) -> nat {
        (self.spec_value()) as nat
    }

    open spec fn encodes(value: nat, bytes: Seq<u8>) -> bool {
        <NativeU16 as ScalarWire>::encodes(value as u16, bytes)
    }

    fn width() -> (r: usize) {
        2
    }

    fn load(&self) -> (r: Option<usize>) {
        Some(self.get() as usize)
    }

    fn represents(value: usize) -> (r: bool) {
        value <= 0xffff
    }

    fn store(value: usize, destination: &mut [u8]) -> (r: Result<(), LayoutError>) {
        if value > 0xffff {
            return Err(LayoutError::IncorrectSize { expected: 0xffff, actual: value });
        }
        NativeU16::new(value as u16).store(destination)
    }

    fn store_preflighted(value: usize, destination: &mut [u8]) {
        NativeU16::new(value as u16).store_preflighted(destination);
    }
}

impl ScalarWire for LittleU16 {
    type Raw = u16;

    open spec fn spec_width() -> nat {
        2
    }

    open spec fn encodes(value: u16, bytes: Seq<u8>) -> bool {
        bytes == le_bytes_u16(value)
    }

    open spec fn loaded(&self) -> u16 {
        from_le_bytes_u16(self.spec_bytes())
    }

    fn width() -> (r: usize) {
        2
    }

    fn load(&self) -> (r: u16) {
        self.get()
    }

    fn store(value: u16, destination: &mut [u8]) -> (r: Result<(), LayoutError>) {
        LittleU16::new(value).store(destination)
    }

    fn store_preflighted(value: u16, destination: &mut [u8]) {
        LittleU16::new(value).store_preflighted(destination);
    }
}

impl LengthWire for LittleU16 {
    open spec fn spec_width() -> nat {
        2
    }

    open spec fn spec_max() -> nat {
        0xffff
    }

    open spec fn loaded(&self) -> nat {
        (from_le_bytes_u16(self.spec_bytes())) as nat
    }

    open spec fn encodes(value: nat, bytes: Seq<u8>) -> bool {
        <LittleU16 as ScalarWire>::encodes(value as u16, bytes)
    }

    fn width() -> (r: usize) {
        2
    }

    fn load(&self) -> (r: Option<usize>) {
        Some(self.get() as usize)
    }

    fn represents(value: usize) -> (r: bool) {
        value <= 0xffff
    }

    fn store(value: usize, destination: &mut [u8]) -> (r: Result<(), LayoutError>) {
        if value > 0xffff {
            return Err(LayoutError::IncorrectSize { expected: 0xffff, actual: value });
        }
        LittleU16::new(value as u16).store(destination)
    }

    fn store_preflighted(value: usize, destination: &mut [u8]) {
        LittleU16::new(value as u16).store_preflighted(destination);
    }
}

impl ScalarWire for BigU16 {
    type Raw = u16;

    open spec fn spec_width() -> nat {
        2
    }

    open spec fn encodes(value: u16, bytes: Seq<u8>) -> bool {
        bytes == be_bytes_u16(value)
    }

    open spec fn loaded(&self) -> u16 {
        from_be_bytes_u16(self.spec_bytes())
    }

    fn width() -> (r: usize) {
        2
    }

    fn load(&self) -> (r: u16) {
        self.get()
    }

    fn store(value: u16, destination: &mut [u8]) -> (r: Result<(), LayoutError>) {
        BigU16::new(value).store(destination)
    }

    fn store_preflighted(value: u16, destination: &mut [u8]) {
        BigU16::new(value).store_preflighted(destination);
    }
}

impl LengthWire for BigU16 {
    open spec fn spec_width() -> nat {
        2
    }

    open spec fn spec_max() -> nat {
        0xffff
    }

    open spec fn loaded(&self) -> nat {
        (from_be_bytes_u16(self.spec_bytes())) as nat
    }

    open spec fn encodes(value: nat, bytes: Seq<u8>) -> bool {
        <BigU16 as ScalarWire>::encodes(value as u16, bytes)
    }

    fn width() -> (r: usize) {
        2
    }

    fn load(&self) -> (r: Option<usize>) {
        Some(self.get() as usize)
    }

    fn represents(value: usize) -> (r: bool) {
        value <= 0xffff
    }

    fn store(value: usize, destination: &mut [u8]) -> (r: Result<(), LayoutError>) {
        if value > 0xffff {
            return Err(LayoutError::IncorrectSize { expected: 0xffff, actual: value });
        }
        BigU16::new(value as u16).store(destination)
    }

    fn store_preflighted(value: usize, destination: &mut [u8]) {
        BigU16::new(value as u16).store_preflighted(destination);
    }
}

impl ScalarWire for NativeU32 {
    type Raw = u32;

    open spec fn spec_width() -> nat {
        4
    }

    open spec fn encodes(value: u32, bytes: Seq<u8>) -> bool {
        bytes == ne_bytes_u32(value)
    }

    open spec fn loaded(&self) -> u32 {
        self.spec_value()
    }

    fn width() -> (r: usize) {
        4
    }

    fn load(&self) -> (r: u32) {
        self.get()
    }

    fn store(value: u32, destination: &mut [u8]) -> (r: Result<(), LayoutError>) {
        NativeU32::new(value).store(destination)
    }

    fn store_preflighted(value: u32, destination: &mut [u8]) {
        NativeU32::new(value).store_preflighted(destination);
    }
}

impl LengthWire for NativeU32 {
    open spec fn spec_width() -> nat {
        4
    }

    open spec fn spec_max() -> nat {
        0xffff_ffff
    }

    open spec fn loaded(&self) -> nat {
        (self.spec_value()) as nat
    }

    open spec fn encodes(value: nat, bytes: Seq<u8>) -> bool {
        <NativeU32 as ScalarWire>::encodes(value as u32, bytes)
    }

    fn width() -> (r: usize) {
        4
    }

    fn load(&self) -> (r: Option<usize>) {
        Some(self.get() as usize)
    }

    fn represents(value: usize) -> (r: bool) {
        value <= 0xffff_ffff
    }

    fn store(value: usize, destination: &mut [u8]) -> (r: Result<(), LayoutError>) {
        if value > 0xffff_ffff {
            return Err(LayoutError::IncorrectSize { expected: 0xffff_ffff, actual: value });
        }
        NativeU32::new(value as u32).store(destination)
    }

    fn store_preflighted(value: usize, destination: &mut [u8]) {
        NativeU32::new(value as u32).store_preflighted(destination);
    }
}

impl ScalarWire for LittleU32 {
    type Raw = u32;

    open spec fn spec_width() -> nat {
        4
    }

    open spec fn encodes(value: u32, bytes: Seq<u8>) -> bool {
        bytes == le_bytes_u32(value)
    }

    open spec fn loaded(&self) -> u32 {
        from_le_bytes_u32(self.spec_bytes())
    }

    fn width() -> (r: usize) {
        4
    }

    fn load(&self) -> (r: u32) {
        self.get()
    }

    fn store(value: u32, destination: &mut [u8]) -> (r: Result<(), LayoutError>) {
        LittleU32::new(value).store(destination)
    }

    fn store_preflighted(value: u32, destination: &mut [u8]) {
        LittleU32::new(value).store_preflighted(destination);
    }
}

impl LengthWire for LittleU32 {
    open spec fn spec_width() -> nat {
        4
    }

    open spec fn spec_max() -> nat {
        0xffff_ffff
    }

    open spec fn loaded(&self) -> nat {
        (from_le_bytes_u32(self.spec_bytes())) as nat
    }

    open spec fn encodes(value: nat, bytes: Seq<u8>) -> bool {
        <LittleU32 as ScalarWire>::encodes(value as u32, bytes)
    }

    fn width() -> (r: usize) {
        4
    }

    fn load(&self) -> (r: Option<usize>) {
        Some(self.get() as usize)
    }

    fn represents(value: usize) -> (r: bool) {
        value <= 0xffff_ffff
    }

    fn store(value: usize, destination: &mut [u8]) -> (r: Result<(), LayoutError>) {
        if value > 0xffff_ffff {
            return Err(LayoutError::IncorrectSize { expected: 0xffff_ffff, actual: value });
        }
        LittleU32::new(value as u32).store(destination)
    }

    fn store_preflighted(value: usize, destination: &mut [u8]) {
        LittleU32::new(value as u32).store_preflighted(destination);
    }
}

impl ScalarWire for BigU32 {
    type Raw = u32;

    open spec fn spec_width() -> nat {
        4
    }

    open spec fn encodes(value: u32, bytes: Seq<u8>) -> bool {
        bytes == be_bytes_u32(value)
    }

    open spec fn loaded(&self) -> u32 {
        from_be_bytes_u32(self.spec_bytes())
    }

    fn width() -> (r: usize) {
        4
    }

    fn load(&self) -> (r: u32) {
        self.get()
    }

    fn store(value: u32, destination: &mut [u8]) -> (r: Result<(), LayoutError>) {
        BigU32::new(value).store(destination)
    }

    fn store_preflighted(value: u32, destination: &mut [u8]) {
        BigU32::new(value).store_preflighted(destination);
    }
}

impl LengthWire for BigU32 {
    open spec fn spec_width() -> nat {
        4
    }

    open spec fn spec_max() -> nat {
        0xffff_ffff
    }

    open spec fn loaded(&self) -> nat {
        (from_be_bytes_u32(self.spec_bytes())) as nat
    }

    open spec fn encodes(value: nat, bytes: Seq<u8>) -> bool {
        <BigU32 as ScalarWire>::encodes(value as u32, bytes)
    }

    fn width() -> (r: usize) {
        4
    }

    fn load(&self) -> (r: Option<usize>) {
        Some(self.get() as usize)
    }

    fn represents(value: usize) -> (r: bool) {
        value <= 0xffff_ffff
    }

    fn store(value: usize, destination: &mut [u8]) -> (r: Result<(), LayoutError>) {
        if value > 0xffff_ffff {
            return Err(LayoutError::IncorrectSize { expected: 0xffff_ffff, actual: value });
        }
        BigU32::new(value as u32).store(destination)
    }

    fn store_preflighted(value: usize, destination: &mut [u8]) {
        BigU32::new(value as u32).store_preflighted(destination);
    }
}

/// Bounded UTF-8 string storage: a length prefix followed by `N` bytes.
pub struct StrWire<L, const N: usize> {
    len: L,
    data: [u8; N],
}

impl<L, const N: usize> StrWire<L, N> {
    pub closed spec fn spec_len(&self) -> L {
        self.len
    }

    pub closed spec fn spec_data(&self) -> Seq<u8> {
        self.data@
    }

    /// The C-layout offset of the length prefix: it comes first.
    pub fn len_offset() -> (r: usize)
        ensures
            r == 0,
    {
        0
    }

    /// The C-layout offset of the data bytes: directly after the prefix.
    pub fn data_offset() -> (r: usize)
        ensures
            r as nat == vstd::layout::size_of::<L>(),
    {
        core::mem::size_of::<L>()
    }

    pub fn len_wire(&self) -> (r: &L)
        ensures
            *r == self.spec_len(),
    {
        &self.len
    }

    pub fn data(&self) -> (r: &[u8; N])
        ensures
            r@ == self.spec_data(),
    {
        &self.data
    }
}

/// Fixed-capacity nul-terminated UTF-8 string storage.
pub struct CStrWire<const N: usize> {
    data: [u8; N],
}

impl<const N: usize> CStrWire<N> {
    pub closed spec fn spec_data(&self) -> Seq<u8> {
        self.data@
    }

    /// The C-layout offset of the data bytes.
    pub fn data_offset() -> (r: usize)
        ensures
            r == 0,
    {
        0
    }

    pub fn data(&self) -> (r: &[u8; N])
        ensures
            r@ == self.spec_data(),
    {
        &self.data
    }
}

/// Rounds `n` up to the next multiple of two.
pub open spec fn round_up_to_two(n: nat) -> nat {
    if n % 2 == 0 {
        n
    } else {
        n + 1
    }
}

/// Bounded native-endian `u16` string storage: a length prefix and `N` units.
pub struct U16StrWire<L, const N: usize> {
    len: L,
    units: [u16; N],
}

impl<L, const N: usize> U16StrWire<L, N> {
    pub closed spec fn spec_len(&self) -> L {
        self.len
    }

    pub closed spec fn spec_units(&self) -> Seq<u16> {
        self.units@
    }

    /// The C-layout offset of the length prefix: it comes first.
    pub fn len_offset() -> (r: usize)
        ensures
            r == 0,
    {
        0
    }

    /// The C-layout offset of the units: the prefix size rounded up to the
    /// two-byte alignment of `u16`.
    pub fn data_offset() -> (r: usize)
        ensures
            r as nat == round_up_to_two(vstd::layout::size_of::<L>()),
    {
        vstd::layout::layout_for_type_is_valid::<L>();
        let size = core::mem::size_of::<L>();
        if size % 2 == 0 {
            size
        } else {
            size + 1
        }
    }

    pub fn len_wire(&self) -> (r: &L)
        ensures
            *r == self.spec_len(),
    {
        &self.len
    }

    pub fn units(&self) -> (r: &[u16; N])
        ensures
            r@ == self.spec_units(),
    {
        &self.units
    }
}

/// Fixed-capacity nul-terminated native-endian `u16` string storage.
pub struct U16CStrWire<const N: usize> {
    units: [u16; N],
}

impl<const N: usize> U16CStrWire<N> {
    pub closed spec fn spec_units(&self) -> Seq<u16> {
        self.units@
    }

    /// The C-layout offset of the units.
    pub fn data_offset() -> (r: usize)
        ensures
            r == 0,
    {
        0
    }

    pub fn units(&self) -> (r: &[u16; N])
        ensures
            r@ == self.spec_units(),
    {
        &self.units
    }
}

/// Raises a field's alignment through a zero-sized marker type `A`.
///
/// The wrapper owns no construction API because it is a wire-only
/// representation formed through checked immutable byte views.
pub struct AlignedWire<T, A> {
    _align: [A; 0],
    value: T,
}

impl<T, A> AlignedWire<T, A> {
    pub closed spec fn spec_value(&self) -> T {
        self.value
    }

    /// The C-layout offset of the wrapped value: the marker occupies no bytes.
    pub fn value_offset() -> (r: usize)
        ensures
            r == 0,
    {
        0
    }

    pub fn value(&self) -> (r: &T)
        ensures
            *r == self.spec_value(),
    {
        &self.value
    }
}
} // verus!

//! Bounded string decoding and encoding over zero-initialized destinations.

use core::str::Utf8Error;
use vstd::prelude::*;
use vstd::string::StringSliceAdditionalSpecFns;
use vstd::utf8::valid_utf8;

use crate::encode::Prezeroed;
use crate::error::LayoutError;
use crate::mutation::{checked_range_spec, slice_between, splice};
use crate::strings::{
    active_length_spec, c_str_bytes, c_str_units, first_c_str, first_c_str_units, native_units,
    native_order_is_little, unit_bytes, unit_bytes_spec, units_in_order,
    no_nul_byte, no_nul_unit, utf8_str,
};
use crate::wire::LengthWire;

verus! {

/// A failure to decode or encode a bounded string.
#[derive(Clone, Copy, Debug, PartialEq, Eq)]
pub enum CodecError {
    LengthOutOfBounds { length: usize, capacity: usize },
    InvalidUtf8(Utf8Error),
    MissingNul,
    NonZeroTail { offset: usize },
    CapacityExceeded { length: usize, capacity: usize },
}

fn logical_len<L: LengthWire>(length: &L, capacity: usize) -> (r: Result<usize, CodecError>)
    ensures
        match active_length_spec(length.loaded(), capacity) {
            Ok(n) => r == Ok::<usize, CodecError>(n),
            Err((l, c)) => r == Err::<usize, CodecError>(
                CodecError::LengthOutOfBounds { length: l, capacity: c },
            ),
        },
{
    let length = match length.load() {
        Some(length) => length,
        None => return Err(CodecError::LengthOutOfBounds { length: usize::MAX, capacity }),
    };
    if length > capacity {
        return Err(CodecError::LengthOutOfBounds { length, capacity });
    }
    Ok(length)
}

/// Whether every byte at or after `start` is zero.
pub open spec fn zero_from(bytes: Seq<u8>, start: int) -> bool {
    forall|j: int| start <= j < bytes.len() ==> bytes[j] == 0
}

/// Whether `offset` is the first position at or after `start` holding a
/// nonzero byte.
pub open spec fn first_nonzero_at(bytes: Seq<u8>, start: int, offset: int) -> bool {
    &&& start <= offset < bytes.len()
    &&& bytes[offset] != 0
    &&& forall|j: int| start <= j < offset ==> bytes[j] == 0
}

/// Rejects the first nonzero byte at or after `start`.
fn check_byte_tail(bytes: &[u8], start: usize) -> (r: Result<(), CodecError>)
    ensures
        r is Ok <==> zero_from(bytes@, start as int),
        r matches Err(e) ==> e matches CodecError::NonZeroTail { offset } && first_nonzero_at(
            bytes@,
            start as int,
            offset as int,
        ),
{
    let n = bytes.len();
    let mut i: usize = start;
    while i < n
        invariant
            n == bytes@.len(),
            start <= i,
            forall|j: int| start <= j < i && j < n ==> bytes@[j] == 0,
        decreases n - i,
    {
        if bytes[i] != 0 {
            return Err(CodecError::NonZeroTail { offset: i });
        }
        i += 1;
    }
    Ok(())
}

/// Decodes a length-prefixed UTF-8 value; with `zero_tail`, every byte of
/// unused capacity must be zero.
pub fn decode_str<'a, L: LengthWire>(length: &L, data: &'a [u8], zero_tail: bool) -> (r: Result<
    &'a str,
    CodecError,
>)
    ensures
        match active_length_spec(length.loaded(), data@.len() as usize) {
            Err((l, c)) => r == Err::<&'a str, CodecError>(
                CodecError::LengthOutOfBounds { length: l, capacity: c },
            ),
            Ok(n) => if !valid_utf8(data@.subrange(0, n as int)) {
                r matches Err(CodecError::InvalidUtf8(_))
            } else if zero_tail && !zero_from(data@, n as int) {
                r matches Err(CodecError::NonZeroTail { offset }) && first_nonzero_at(
                    data@,
                    n as int,
                    offset as int,
                )
            } else {
                r matches Ok(s) && s.spec_bytes() == data@.subrange(0, n as int)
            },
        },
{
    let n = match logical_len(length, data.len()) {
        Ok(n) => n,
        Err(e) => return Err(e),
    };
    let value = match utf8_str(slice_between(data, 0, n)) {
        Ok(value) => value,
        Err(e) => return Err(CodecError::InvalidUtf8(e)),
    };
    if zero_tail {
        match check_byte_tail(data, n) {
            Ok(()) => {},
            Err(e) => return Err(e),
        }
    }
    Ok(value)
}

/// The outcome of fitting `length` units into `capacity`.
pub open spec fn capacity_spec(length: usize, capacity: usize) -> Result<(), CodecError> {
    if length > capacity {
        Err(CodecError::CapacityExceeded { length, capacity })
    } else {
        Ok(())
    }
}

fn capacity_check(length: usize, capacity: usize) -> (r: Result<(), CodecError>)
    ensures
        r == capacity_spec(length, capacity),
{
    if length > capacity {
        Err(CodecError::CapacityExceeded { length, capacity })
    } else {
        Ok(())
    }
}

/// Checks that a UTF-8 value fits `capacity` bytes.
pub fn validate_str_encode(value: &str, capacity: usize) -> (r: Result<(), CodecError>)
    ensures
        r == capacity_spec(value.spec_bytes().len() as usize, capacity),
{
    capacity_check(value.len(), capacity)
}

/// Writes the prefix encoding of `length` at the start of `destination`; an
/// unrepresentable length is an offset overflow.
pub fn encode_length<L: LengthWire>(length: usize, destination: &mut Prezeroed<'_>) -> (r: Result<
    (),
    LayoutError,
>)
    ensures
        final(final(destination).storage())@ == final(old(destination).storage())@,
        length > L::spec_max() ==> r == Err::<(), LayoutError>(LayoutError::OffsetOverflow)
            && final(destination)@ == old(destination)@,
        length <= L::spec_max() && L::spec_width() > old(destination)@.len() ==> r
            == Err::<(), LayoutError>(
            LayoutError::InsufficientBytes {
                required: L::spec_width() as usize,
                actual: old(destination)@.len() as usize,
            },
        ) && final(destination)@ == old(destination)@,
        length <= L::spec_max() && L::spec_width() <= old(destination)@.len() ==> r is Ok && exists|
            encoded: Seq<u8>,
        |
            #[trigger] L::encodes(length as nat, encoded) && encoded.len() == L::spec_width()
                && final(destination)@ == splice(old(destination)@, 0, encoded),
{
    if !L::represents(length) {
        return Err(LayoutError::OffsetOverflow);
    }
    let _ = destination.len();
    let width = L::width();
    let mut encoded: Vec<u8> = Vec::new();
    let mut i: usize = 0;
    while i < width
        invariant
            encoded@.len() == i,
            i <= width,
        decreases width - i,
    {
        encoded.push(0u8);
        i += 1;
    }
    L::store_preflighted(length, encoded.as_mut_slice());
    let ghost bytes = encoded@;
    let r = destination.write(0, encoded.as_slice());
    assert(r is Ok ==> L::encodes(length as nat, bytes) && bytes.len() == L::spec_width()
        && destination@ == splice(old(destination)@, 0, bytes));
    r
}

/// Writes a UTF-8 value's bytes at the start of `destination`.
pub fn encode_str(value: &str, destination: &mut Prezeroed<'_>) -> (r: Result<(), LayoutError>)
    ensures
        final(final(destination).storage())@ == final(old(destination).storage())@,
        match checked_range_spec(
            old(destination)@.len() as usize,
            0,
            value.spec_bytes().len() as usize,
        ) {
            Err(e) => r == Err::<(), LayoutError>(e) && final(destination)@ == old(destination)@,
            Ok(_) => r is Ok
                && final(destination)@ == splice(old(destination)@, 0, value.spec_bytes()),
        },
{
    destination.write(0, value.as_bytes())
}

/// Writes exactly `N` fixed bytes at the start of `destination`.
pub fn encode_fixed_bytes<const N: usize>(value: &[u8; N], destination: &mut Prezeroed<'_>) -> (r:
    Result<(), LayoutError>)
    ensures
        final(final(destination).storage())@ == final(old(destination).storage())@,
        match checked_range_spec(old(destination)@.len() as usize, 0, N) {
            Err(e) => r == Err::<(), LayoutError>(e) && final(destination)@ == old(destination)@,
            Ok(_) => r is Ok && final(destination)@ == splice(old(destination)@, 0, value@),
        },
{
    destination.write(0, value.as_slice())
}

/// Whether every unit at or after `start` is zero.
pub open spec fn zero_units_from(units: Seq<u16>, start: int) -> bool {
    forall|j: int| start <= j < units.len() ==> units[j] == 0
}

/// Whether `offset` is the first position at or after `start` holding a
/// nonzero unit.
pub open spec fn first_nonzero_unit_at(units: Seq<u16>, start: int, offset: int) -> bool {
    &&& start <= offset < units.len()
    &&& units[offset] != 0
    &&& forall|j: int| start <= j < offset ==> units[j] == 0
}

/// Rejects the first nonzero unit at or after `start`.
fn check_unit_tail(units: &[u16], start: usize) -> (r: Result<(), CodecError>)
    ensures
        r is Ok <==> zero_units_from(units@, start as int),
        r matches Err(e) ==> e matches CodecError::NonZeroTail { offset } && first_nonzero_unit_at(
            units@,
            start as int,
            offset as int,
        ),
{
    let n = units.len();
    let mut i: usize = start;
    while i < n
        invariant
            n == units@.len(),
            start <= i,
            forall|j: int| start <= j < i && j < n ==> units@[j] == 0,
        decreases n - i,
    {
        if units[i] != 0 {
            return Err(CodecError::NonZeroTail { offset: i });
        }
        i += 1;
    }
    Ok(())
}

/// Decodes a narrow C string, returned with its terminator; with
/// `zero_tail`, every byte after the terminator must be zero.
pub fn decode_c_str(data: &[u8], zero_tail: bool) -> (r: Result<&[u8], CodecError>)
    ensures
        no_nul_byte(data@) ==> r == Err::<&[u8], CodecError>(CodecError::MissingNul),
        !no_nul_byte(data@) ==> exists|n: int|
            #![trigger data@.subrange(0, n)]
            0 < n <= data@.len() && c_str_bytes(data@.subrange(0, n)) && if zero_tail && !zero_from(
                data@,
                n,
            ) {
                r matches Err(CodecError::NonZeroTail { offset }) && first_nonzero_at(
                    data@,
                    n,
                    offset as int,
                )
            } else {
                r matches Ok(value) && value@ == data@.subrange(0, n)
            },
{
    let value = match first_c_str(data) {
        Some(value) => value,
        None => return Err(CodecError::MissingNul),
    };
    let ghost n = value@.len() as int;
    assert(data@.subrange(0, n) == value@);
    if zero_tail {
        match check_byte_tail(data, value.len()) {
            Ok(()) => {},
            Err(e) => return Err(e),
        }
    }
    Ok(value)
}

/// Decodes a length-prefixed wide value without checking Unicode scalar
/// validity; with `zero_tail`, every unit of unused capacity must be zero.
pub fn decode_u16_str<'a, L: LengthWire>(
    length: &L,
    units: &'a [u16],
    zero_tail: bool,
) -> (r: Result<
    &'a [u16],
    CodecError,
>)
    ensures
        match active_length_spec(length.loaded(), units.len()) {
            Err((l, c)) => r == Err::<&'a [u16], CodecError>(
                CodecError::LengthOutOfBounds { length: l, capacity: c },
            ),
            Ok(n) => if zero_tail && !zero_units_from(units@, n as int) {
                r matches Err(CodecError::NonZeroTail { offset }) && first_nonzero_unit_at(
                    units@,
                    n as int,
                    offset as int,
                )
            } else {
                r matches Ok(value) && value@ == units@.subrange(0, n as int)
            },
        },
{
    let n = match logical_len(length, units.len()) {
        Ok(n) => n,
        Err(e) => return Err(e),
    };
    if zero_tail {
        match check_unit_tail(units, n) {
            Ok(()) => {},
            Err(e) => return Err(e),
        }
    }
    Ok(units.split_at(n).0)
}

/// Decodes a wide C string, returned with its terminator; with `zero_tail`,
/// every unit after the terminator must be zero.
pub fn decode_u16_c_str(units: &[u16], zero_tail: bool) -> (r: Result<&[u16], CodecError>)
    ensures
        no_nul_unit(units@) ==> r == Err::<&[u16], CodecError>(CodecError::MissingNul),
        !no_nul_unit(units@) ==> exists|n: int|
            #![trigger units@.subrange(0, n)]
            0 < n <= units@.len() && c_str_units(units@.subrange(0, n)) && if zero_tail
                && !zero_units_from(units@, n) {
                r matches Err(CodecError::NonZeroTail { offset }) && first_nonzero_unit_at(
                    units@,
                    n,
                    offset as int,
                )
            } else {
                r matches Ok(value) && value@ == units@.subrange(0, n)
            },
{
    let value = match first_c_str_units(units) {
        Some(value) => value,
        None => return Err(CodecError::MissingNul),
    };
    let ghost n = value@.len() as int;
    assert(units@.subrange(0, n) == value@);
    if zero_tail {
        match check_unit_tail(units, value.len()) {
            Ok(()) => {},
            Err(e) => return Err(e),
        }
    }
    Ok(value)
}

/// Checks that a narrow C string, given with its terminator, fits `capacity`
/// bytes.
pub fn validate_c_str_encode(value: &[u8], capacity: usize) -> (r: Result<(), CodecError>)
    ensures
        r == capacity_spec(value.len(), capacity),
{
    capacity_check(value.len(), capacity)
}

/// Checks that a wide value fits `capacity` units.
pub fn validate_u16_str_encode(value: &[u16], capacity: usize) -> (r: Result<(), CodecError>)
    ensures
        r == capacity_spec(value.len(), capacity),
{
    capacity_check(value.len(), capacity)
}

/// Checks that a wide C string, given with its terminator, fits `capacity`
/// units.
pub fn validate_u16_c_str_encode(value: &[u16], capacity: usize) -> (r: Result<(), CodecError>)
    ensures
        r == capacity_spec(value.len(), capacity),
{
    capacity_check(value.len(), capacity)
}

/// Writes a narrow C string, given with its terminator, at the start of
/// `destination`.
pub fn encode_c_str(value: &[u8], destination: &mut Prezeroed<'_>) -> (r: Result<(), LayoutError>)
    ensures
        final(final(destination).storage())@ == final(old(destination).storage())@,
        match checked_range_spec(old(destination)@.len() as usize, 0, value.len()) {
            Err(e) => r == Err::<(), LayoutError>(e) && final(destination)@ == old(destination)@,
            Ok(_) => r is Ok && final(destination)@ == splice(old(destination)@, 0, value@),
        },
{
    destination.write(0, value)
}

/// The bytes of `units` in native byte order, unit by unit.
fn native_unit_bytes(units: &[u16]) -> (r: Vec<u8>)
    requires
        2 * units@.len() <= usize::MAX,
    ensures
        native_units(r@, units@),
{
    let little = native_order_is_little();
    let n = units.len();
    let mut bytes: Vec<u8> = Vec::new();
    let mut i: usize = 0;
    while i < n
        invariant
            n == units@.len(),
            2 * n <= usize::MAX,
            i <= n,
            bytes@.len() == 2 * i,
            forall|k: int|
                0 <= k < i ==> #[trigger] bytes@.subrange(2 * k, 2 * k + 2) == unit_bytes_spec(
                    units@[k],
                    little,
                ),
        decreases n - i,
    {
        let unit = unit_bytes(units[i], little);
        let ghost before = bytes@;
        bytes.push(unit[0]);
        bytes.push(unit[1]);
        proof {
            assert(bytes@.subrange(2 * i, 2 * i + 2) =~= unit@);
            assert forall|k: int| 0 <= k < i implies #[trigger] bytes@.subrange(2 * k, 2 * k + 2)
                == before.subrange(2 * k, 2 * k + 2) by {
                assert(bytes@.subrange(2 * k, 2 * k + 2) =~= before.subrange(2 * k, 2 * k + 2));
            }
        }
        i += 1;
    }
    assert(units_in_order(bytes@, units@, little));
    bytes
}

/// Writes a wide value's units in native byte order at the start of
/// `destination`; a value that does not fit changes nothing.
pub fn encode_u16_str(
    value: &[u16],
    destination: &mut Prezeroed<'_>,
) -> (r: Result<(), LayoutError>)
    requires
        2 * value@.len() <= usize::MAX,
    ensures
        final(final(destination).storage())@ == final(old(destination).storage())@,
        match checked_range_spec(old(destination)@.len() as usize, 0, (2 * value@.len()) as usize) {
            Err(e) => r == Err::<(), LayoutError>(e) && final(destination)@ == old(destination)@,
            Ok(_) => r is Ok && exists|bytes: Seq<u8>|
                #[trigger] native_units(bytes, value@) && final(destination)@ == splice(
                    old(destination)@,
                    0,
                    bytes,
                ),
        },
{
    let bytes = native_unit_bytes(value);
    let ghost written = bytes@;
    let r = destination.write(0, bytes.as_slice());
    assert(
        r is Ok ==> native_units(written, value@)
            && destination@ == splice(old(destination)@, 0, written)
    );
    r
}

/// Writes a wide C string, given with its terminator, in native byte order at
/// the start of `destination`; a value that does not fit changes nothing.
pub fn encode_u16_c_str(
    value: &[u16],
    destination: &mut Prezeroed<'_>,
) -> (r: Result<(), LayoutError>)
    requires
        2 * value@.len() <= usize::MAX,
    ensures
        final(final(destination).storage())@ == final(old(destination).storage())@,
        match checked_range_spec(old(destination)@.len() as usize, 0, (2 * value@.len()) as usize) {
            Err(e) => r == Err::<(), LayoutError>(e) && final(destination)@ == old(destination)@,
            Ok(_) => r is Ok && exists|bytes: Seq<u8>|
                #[trigger] native_units(bytes, value@) && final(destination)@ == splice(
                    old(destination)@,
                    0,
                    bytes,
                ),
        },
{
    encode_u16_str(value, destination)
}

} // verus!

//! Bounded string proof and mutation helpers.
//!
//! Proof reads only the active length. Mutation checks the complete source
//! representation before it touches a selected destination slice and leaves
//! capacity after the new active value intact.

use core::str::Utf8Error;
use vstd::prelude::*;
use vstd::slice::SliceAdditionalExecFns;
use vstd::string::StringSliceAdditionalSpecFns;
use vstd::utf8::valid_utf8;

use crate::error::LayoutError;
use crate::mutation::{copy_all, slice_between, slice_between_mut};
use crate::wire::{
    be_bytes_u16, le_bytes_u16, lemma_u16_bytes_roundtrip, native_little, ne_bytes_u16, u16_native_bytes,
    LengthWire,
};

verus! {

#[verifier::external_type_specification]
#[verifier::external_body]
pub struct ExUtf8Error(Utf8Error);

/// `core::str::from_utf8`: succeeds exactly on valid UTF-8, and the resulting
/// string is made of the same bytes. What the error reports is left unsaid.
#[verifier::external_body]
pub(crate) fn utf8_str(bytes: &[u8]) -> (r: Result<&str, Utf8Error>)
    ensures
        r is Ok <==> valid_utf8(bytes@),
        r matches Ok(s) ==> s.spec_bytes() == bytes@,
{
    core::str::from_utf8(bytes)
}

/// A bounded-string representation failure that generated access errors map to
/// their root-specific, structured variants.
#[derive(Clone, Copy, Debug, PartialEq, Eq)]
pub enum StringProofError {
    LengthOutOfBounds { length: usize, capacity: usize },
    InvalidUtf8(Utf8Error),
    MissingNul,
}

/// A bounded-string mutation preflight failure that generated mutation errors
/// map to their root-specific, structured variants.
#[derive(Clone, Copy, Debug, PartialEq, Eq)]
pub enum StringMutationError {
    CapacityExceeded { length: usize, capacity: usize },
    LengthUnrepresentable { length: usize },
    PrefixSize { expected: usize, actual: usize },
    WideByteSize { actual: usize },
    Layout(LayoutError),
}

impl From<LayoutError> for StringMutationError {
    fn from(error: LayoutError) -> (r: Self) {
        StringMutationError::Layout(error)
    }
}

impl vstd::std_specs::convert::FromSpecImpl<LayoutError> for StringMutationError {
    open spec fn obeys_from_spec() -> bool {
        true
    }

    open spec fn from_spec(error: LayoutError) -> Self {
        StringMutationError::Layout(error)
    }
}

/// The active length of a prefix under `capacity`: an undecodable prefix is
/// reported with length `usize::MAX`, a prefix beyond capacity with its value.
pub open spec fn active_length_spec(loaded: nat, capacity: usize) -> Result<usize, (usize, usize)> {
    if loaded > usize::MAX {
        Err((usize::MAX, capacity))
    } else if loaded > capacity {
        Err((loaded as usize, capacity))
    } else {
        Ok(loaded as usize)
    }
}

fn active_length<L: LengthWire>(length: &L, capacity: usize) -> (r: Result<usize, StringProofError>)
    ensures
        match active_length_spec(length.loaded(), capacity) {
            Ok(n) => r == Ok::<usize, StringProofError>(n),
            Err((l, c)) => r == Err::<usize, StringProofError>(
                StringProofError::LengthOutOfBounds { length: l, capacity: c },
            ),
        },
{
    let length = match length.load() {
        Some(length) => length,
        None => return Err(StringProofError::LengthOutOfBounds { length: usize::MAX, capacity }),
    };
    if length > capacity {
        return Err(StringProofError::LengthOutOfBounds { length, capacity });
    }
    Ok(length)
}

/// Proves a length-prefixed UTF-8 value without reading unused capacity:
/// the outcome depends only on the prefix and the first `length` data bytes.
pub fn prove_str<'data, L: LengthWire>(length: &L, data: &'data [u8]) -> (r: Result<
    &'data str,
    StringProofError,
>)
    ensures
        match active_length_spec(length.loaded(), data@.len() as usize) {
            Err((l, c)) => r == Err::<&'data str, StringProofError>(
                StringProofError::LengthOutOfBounds { length: l, capacity: c },
            ),
            Ok(n) => if valid_utf8(data@.subrange(0, n as int)) {
                r matches Ok(s) && s.spec_bytes() == data@.subrange(0, n as int)
            } else {
                r matches Err(StringProofError::InvalidUtf8(_))
            },
        },
{
    let n = match active_length(length, data.len()) {
        Ok(n) => n,
        Err(e) => return Err(e),
    };
    match utf8_str(slice_between(data, 0, n)) {
        Ok(s) => Ok(s),
        Err(e) => Err(StringProofError::InvalidUtf8(e)),
    }
}

/// The preflight outcome of writing a `length`-unit value with prefix
/// representation `L`: prefix width, then capacity, then representability.
pub open spec fn length_prefixed_preflight_spec<L: LengthWire>(
    length: usize,
    capacity: usize,
    prefix_size: usize,
) -> Result<(), StringMutationError> {
    if prefix_size != L::spec_width() {
        Err(StringMutationError::PrefixSize { expected: L::spec_width() as usize, actual: prefix_size })
    } else if length > capacity {
        Err(StringMutationError::CapacityExceeded { length, capacity })
    } else if length > L::spec_max() {
        Err(StringMutationError::LengthUnrepresentable { length })
    } else {
        Ok(())
    }
}

/// Preflights a length-prefixed write before either data or prefix changes.
pub fn preflight_length_prefixed<L: LengthWire>(length: usize, capacity: usize, prefix_size: usize) -> (r:
    Result<(), StringMutationError>)
    ensures
        r == length_prefixed_preflight_spec::<L>(length, capacity, prefix_size),
{
    let width = L::width();
    if prefix_size != width {
        return Err(StringMutationError::PrefixSize { expected: width, actual: prefix_size });
    }
    if length > capacity {
        return Err(StringMutationError::CapacityExceeded { length, capacity });
    }
    if !L::represents(length) {
        return Err(StringMutationError::LengthUnrepresentable { length });
    }
    Ok(())
}

/// Preflights a length-prefixed UTF-8 replacement without touching storage.
pub fn preflight_str<L: LengthWire>(prefix: &[u8], data: &[u8], value: &str) -> (r: Result<
    (),
    StringMutationError,
>)
    ensures
        r == length_prefixed_preflight_spec::<L>(
            value.spec_bytes().len() as usize,
            data@.len() as usize,
            prefix@.len() as usize,
        ),
{
    preflight_length_prefixed::<L>(value.len(), data.len(), prefix.len())
}

/// The data bytes after writing `value` over the front of `data`: capacity
/// after the active value keeps its previous bytes.
pub open spec fn active_written(data: Seq<u8>, value: Seq<u8>) -> Seq<u8> {
    value + data.subrange(value.len() as int, data.len() as int)
}

/// Commits a previously preflighted length-prefixed UTF-8 replacement.
///
/// The write leaves capacity after the active value intact.
pub fn commit_str<L: LengthWire>(prefix: &mut [u8], data: &mut [u8], value: &str)
    requires
        length_prefixed_preflight_spec::<L>(
            value.spec_bytes().len() as usize,
            old(data)@.len() as usize,
            old(prefix)@.len() as usize,
        ) is Ok,
    ensures
        final(data)@ == active_written(old(data)@, value.spec_bytes()),
        L::encodes(value.spec_bytes().len(), final(prefix)@),
{
    let bytes = value.as_bytes();
    let n = bytes.len();
    let _ = prefix.len();
    let _ = data.len();
    {
        let active = slice_between_mut(data, 0, n);
        copy_all(active, bytes);
    }
    assert(data@ =~= active_written(old(data)@, value.spec_bytes()));
    L::store_preflighted(n, prefix);
}

/// Replaces a length-prefixed UTF-8 value without clearing unused destination
/// capacity; a rejected replacement leaves prefix and data unchanged.
pub fn set_str<L: LengthWire>(prefix: &mut [u8], data: &mut [u8], value: &str) -> (r: Result<
    (),
    StringMutationError,
>)
    ensures
        r == length_prefixed_preflight_spec::<L>(
            value.spec_bytes().len() as usize,
            old(data)@.len() as usize,
            old(prefix)@.len() as usize,
        ),
        r is Err ==> final(prefix)@ == old(prefix)@ && final(data)@ == old(data)@,
        r is Ok ==> final(data)@ == active_written(old(data)@, value.spec_bytes()) && L::encodes(
            value.spec_bytes().len(),
            final(prefix)@,
        ),
{
    match preflight_str::<L>(prefix, data, value) {
        Ok(()) => {},
        Err(e) => return Err(e),
    }
    commit_str::<L>(prefix, data, value);
    Ok(())
}

/// Returns the UTF-8 source carried by a proof failure, when present.
pub fn invalid_utf8_source(error: &StringProofError) -> (r: Option<Utf8Error>)
    ensures
        match *error {
            StringProofError::InvalidUtf8(source) => r == Some(source),
            _ => r is None,
        },
{
    match error {
        StringProofError::InvalidUtf8(source) => Some(*source),
        _ => None,
    }
}

/// Whether `value` is a narrow C string with its terminator: it is not
/// empty, ends in a zero byte, and has no zero byte before that.
pub open spec fn c_str_bytes(value: Seq<u8>) -> bool {
    &&& value.len() >= 1
    &&& value.last() == 0
    &&& forall|j: int| 0 <= j < value.len() - 1 ==> value[j] != 0
}

/// Whether `value` is a wide C string with its terminator: it is not empty,
/// ends in a zero unit, and has no zero unit before that.
pub open spec fn c_str_units(value: Seq<u16>) -> bool {
    &&& value.len() >= 1
    &&& value.last() == 0
    &&& forall|j: int| 0 <= j < value.len() - 1 ==> value[j] != 0
}

/// Whether `data` holds no zero byte.
pub open spec fn no_nul_byte(data: Seq<u8>) -> bool {
    forall|j: int| 0 <= j < data.len() ==> data[j] != 0
}

/// Whether `data` holds no zero unit.
pub open spec fn no_nul_unit(data: Seq<u16>) -> bool {
    forall|j: int| 0 <= j < data.len() ==> data[j] != 0
}

/// The narrow C string at the front of `data`, up to and including its
/// first zero byte, or `None` when `data` holds no zero byte.
pub(crate) fn first_c_str(data: &[u8]) -> (r: Option<&[u8]>)
    ensures
        r is None <==> no_nul_byte(data@),
        r matches Some(value) ==> c_str_bytes(value@) && value@.len() <= data@.len() && value@
            == data@.subrange(0, value@.len() as int),
{
    let n = data.len();
    let mut i: usize = 0;
    while i < n
        invariant
            n == data@.len(),
            i <= n,
            forall|j: int| 0 <= j < i ==> data@[j] != 0,
        decreases n - i,
    {
        if data[i] == 0 {
            let value = slice_between(data, 0, i + 1);
            assert(value@.last() == data@[i as int]);
            return Some(value);
        }
        i += 1;
    }
    None
}

/// The wide C string at the front of `units`, up to and including its first
/// zero unit, or `None` when `units` holds no zero unit.
pub(crate) fn first_c_str_units(units: &[u16]) -> (r: Option<&[u16]>)
    ensures
        r is None <==> no_nul_unit(units@),
        r matches Some(value) ==> c_str_units(value@) && value@.len() <= units@.len() && value@
            == units@.subrange(0, value@.len() as int),
{
    let n = units.len();
    let mut i: usize = 0;
    while i < n
        invariant
            n == units@.len(),
            i <= n,
            forall|j: int| 0 <= j < i ==> units@[j] != 0,
        decreases n - i,
    {
        if units[i] == 0 {
            let value = units.split_at(i + 1).0;
            assert(value@.last() == units@[i as int]);
            return Some(value);
        }
        i += 1;
    }
    None
}

/// Proves a narrow C string without reading past its first zero byte; the
/// result is the string with its terminator.
pub fn prove_c_str(data: &[u8]) -> (r: Result<&[u8], StringProofError>)
    ensures
        no_nul_byte(data@) ==> r == Err::<&[u8], StringProofError>(StringProofError::MissingNul),
        !no_nul_byte(data@) ==> (r matches Ok(value) && c_str_bytes(value@) && value@ == data@.subrange(
            0,
            value@.len() as int,
        )),
{
    match first_c_str(data) {
        Some(value) => Ok(value),
        None => Err(StringProofError::MissingNul),
    }
}

/// Proves a length-prefixed wide value without checking Unicode scalar
/// validity or reading unused unit capacity.
pub fn prove_u16_str<'units, L: LengthWire>(length: &L, units: &'units [u16]) -> (r: Result<
    &'units [u16],
    StringProofError,
>)
    ensures
        match active_length_spec(length.loaded(), units.len()) {
            Err((l, c)) => r == Err::<&'units [u16], StringProofError>(
                StringProofError::LengthOutOfBounds { length: l, capacity: c },
            ),
            Ok(n) => r matches Ok(value) && value@ == units@.subrange(0, n as int),
        },
{
    let n = match active_length(length, units.len()) {
        Ok(n) => n,
        Err(e) => return Err(e),
    };
    Ok(units.split_at(n).0)
}

/// Proves a wide C string without checking Unicode scalar validity or
/// reading units after its first terminator; the result is the string with
/// its terminator.
pub fn prove_u16_c_str(units: &[u16]) -> (r: Result<&[u16], StringProofError>)
    ensures
        no_nul_unit(units@) ==> r == Err::<&[u16], StringProofError>(StringProofError::MissingNul),
        !no_nul_unit(units@) ==> (r matches Ok(value) && c_str_units(value@) && value@
            == units@.subrange(0, value@.len() as int)),
{
    match first_c_str_units(units) {
        Some(value) => Ok(value),
        None => Err(StringProofError::MissingNul),
    }
}

/// The units `bytes` holds, read in the target's byte order.
fn native_units_of(bytes: &[u8]) -> (r: Vec<u16>)
    requires
        bytes@.len() % 2 == 0,
    ensures
        native_units(bytes@, r@),
{
    let little = native_order_is_little();
    let total = bytes.len();
    let n = total / 2;
    assert(2 * n == bytes@.len());
    let mut units: Vec<u16> = Vec::new();
    let mut i: usize = 0;
    while i < n
        invariant
            2 * n == bytes@.len(),
            total == bytes@.len(),
            i <= n,
            units@.len() == i,
            forall|k: int|
                0 <= k < i ==> #[trigger] bytes@.subrange(2 * k, 2 * k + 2) == unit_bytes_spec(
                    units@[k],
                    little,
                ),
        decreases n - i,
    {
        let b0 = bytes[2 * i] as u16;
        let b1 = bytes[2 * i + 1] as u16;
        let unit: u16 = if little {
            b0 + b1 * 0x100
        } else {
            b0 * 0x100 + b1
        };
        assert(bytes@.subrange(2 * i as int, 2 * i + 2) =~= unit_bytes_spec(unit, little));
        units.push(unit);
        i += 1;
    }
    assert(units_in_order(bytes@, units@, little));
    units
}

/// Proves a length-prefixed wide value held in the exact bytes of `N`
/// native-order units, without checking Unicode scalar validity or reading
/// unused unit capacity; the result holds the active units.
pub fn prove_u16_str_bytes<L: LengthWire, const N: usize>(length: &L, bytes: &[u8]) -> (r: Result<
    Vec<u16>,
    StringProofError,
>)
    requires
        bytes@.len() == 2 * N,
    ensures
        match active_length_spec(length.loaded(), N) {
            Err((l, c)) => r == Err::<Vec<u16>, StringProofError>(
                StringProofError::LengthOutOfBounds { length: l, capacity: c },
            ),
            Ok(n) => r matches Ok(value) && exists|units: Seq<u16>|
                native_units(bytes@, units) && value@ == #[trigger] units.subrange(0, n as int),
        },
{
    let units = native_units_of(bytes);
    match prove_u16_str(length, units.as_slice()) {
        Ok(value) => {
            let mut out: Vec<u16> = Vec::new();
            out.extend_from_slice(value);
            proof {
                assert(out@ == units@.subrange(0, value@.len() as int));
            }
            Ok(out)
        },
        Err(e) => Err(e),
    }
}

/// Proves a wide C string held in the exact bytes of `N` native-order units,
/// without checking Unicode scalar validity or reading units after its first
/// terminator; the result is the string with its terminator.
pub fn prove_u16_c_str_bytes<const N: usize>(bytes: &[u8]) -> (r: Result<Vec<u16>, StringProofError>)
    requires
        bytes@.len() == 2 * N,
    ensures
        exists|units: Seq<u16>|
            #![trigger native_units(bytes@, units)]
            native_units(bytes@, units) && (no_nul_unit(units) ==> r == Err::<Vec<u16>, StringProofError>(
                StringProofError::MissingNul,
            )) && (!no_nul_unit(units) ==> (r matches Ok(value) && c_str_units(value@) && value@
                == units.subrange(0, value@.len() as int))),
{
    let units = native_units_of(bytes);
    match prove_u16_c_str(units.as_slice()) {
        Ok(value) => {
            let mut out: Vec<u16> = Vec::new();
            out.extend_from_slice(value);
            Ok(out)
        },
        Err(e) => Err(e),
    }
}

/// The capacity in `u16` units of `bytes` bytes of wide storage.
pub open spec fn wide_capacity_spec(bytes: usize) -> Result<usize, StringMutationError> {
    if bytes % 2 != 0 {
        Err(StringMutationError::WideByteSize { actual: bytes })
    } else {
        Ok(bytes / 2)
    }
}

fn wide_capacity(bytes: &[u8]) -> (r: Result<usize, StringMutationError>)
    ensures
        r == wide_capacity_spec(bytes@.len() as usize),
{
    if bytes.len() % 2 != 0 {
        return Err(StringMutationError::WideByteSize { actual: bytes.len() });
    }
    Ok(bytes.len() / 2)
}

/// The two bytes of `unit`, least significant first when `little` holds.
pub open spec fn unit_bytes_spec(unit: u16, little: bool) -> Seq<u8> {
    if little {
        le_bytes_u16(unit)
    } else {
        be_bytes_u16(unit)
    }
}

/// Whether `bytes` holds `units` unit by unit, every unit in the one byte
/// order given by `little`.
pub open spec fn units_in_order(bytes: Seq<u8>, units: Seq<u16>, little: bool) -> bool {
    &&& bytes.len() == 2 * units.len()
    &&& forall|i: int|
        0 <= i < units.len() ==> #[trigger] bytes.subrange(2 * i, 2 * i + 2) == unit_bytes_spec(
            units[i],
            little,
        )
}

/// Whether `bytes` holds `units` unit by unit in the machine's one byte
/// order, `native_little()`.
pub open spec fn native_units(bytes: Seq<u8>, units: Seq<u16>) -> bool {
    units_in_order(bytes, units, native_little())
}

/// Whether the target stores `u16` values least significant byte first, read
/// off one native encoding of a value whose two byte orders differ.
pub(crate) fn native_order_is_little() -> (r: bool)
    ensures
        r == native_little(),
{
    let probe = u16_native_bytes(0x0100);
    assert(le_bytes_u16(0x0100)[0] == 0);
    assert(be_bytes_u16(0x0100)[0] == 1);
    probe[0] == 0
}

/// Wide units and their bytes in native order: every unit's two bytes are
/// the bytes `u16::to_ne_bytes` gives for it, in the machine's one byte order
/// whatever the unit's position and the number of units; so the bytes
/// determine the units, and units written to storage are the units read back
/// from it.
pub proof fn lemma_native_units_read_back(bytes: Seq<u8>, written: Seq<u16>, read: Seq<u16>)
    requires
        native_units(bytes, written),
    ensures
        bytes.len() == 2 * written.len(),
        forall|i: int|
            0 <= i < written.len() ==> #[trigger] bytes.subrange(2 * i, 2 * i + 2) == ne_bytes_u16(
                written[i],
            ),
        native_units(bytes, read) ==> read == written,
{
    if native_units(bytes, read) {
        assert forall|i: int| 0 <= i < written.len() implies read[i] == written[i] by {
            assert(bytes.subrange(2 * i, 2 * i + 2) == unit_bytes_spec(written[i], native_little()));
            assert(bytes.subrange(2 * i, 2 * i + 2) == unit_bytes_spec(read[i], native_little()));
            lemma_u16_bytes_roundtrip(written[i]);
            lemma_u16_bytes_roundtrip(read[i]);
        }
        assert(read =~= written);
    }
}

/// The wide string proved from native bytes holds, at each position, the
/// unit `u16::from_ne_bytes` reads from that position's two bytes.
pub proof fn lemma_proved_wide_units_are_native(bytes: Seq<u8>, units: Seq<u16>, value: Seq<u16>, n: int)
    requires
        native_units(bytes, units),
        0 <= n <= units.len(),
        value == units.subrange(0, n),
    ensures
        forall|i: int|
            0 <= i < value.len() ==> #[trigger] bytes.subrange(2 * i, 2 * i + 2) == ne_bytes_u16(
                value[i],
            ),
{
    lemma_native_units_read_back(bytes, units, units);
    assert forall|i: int| 0 <= i < value.len() implies #[trigger] bytes.subrange(2 * i, 2 * i + 2)
        == ne_bytes_u16(value[i]) by {
        assert(value[i] == units[i]);
        assert(bytes.subrange(2 * i, 2 * i + 2) == ne_bytes_u16(units[i]));
    }
}

/// The two bytes of `unit` in the given byte order.
pub(crate) fn unit_bytes(unit: u16, little: bool) -> (r: [u8; 2])
    ensures
        r@ == unit_bytes_spec(unit, little),
{
    if little {
        [(unit % 0x100) as u8, (unit / 0x100) as u8]
    } else {
        [(unit / 0x100) as u8, (unit % 0x100) as u8]
    }
}

/// Stores `source` into `destination` unit by unit in native byte order.
fn store_native_u16s(destination: &mut [u8], source: &[u16])
    requires
        old(destination)@.len() == 2 * source@.len(),
    ensures
        native_units(final(destination)@, source@),
{
    let little = native_order_is_little();
    let n = source.len();
    let total = destination.len();
    let mut i: usize = 0;
    while i < n
        invariant
            n == source@.len(),
            i <= n,
            total == destination@.len(),
            destination@.len() == 2 * n,
            forall|k: int|
                0 <= k < i ==> #[trigger] destination@.subrange(2 * k, 2 * k + 2) == unit_bytes_spec(
                    source@[k],
                    little,
                ),
        decreases n - i,
    {
        let bytes = unit_bytes(source[i], little);
        let ghost before = destination@;
        destination.set(2 * i, bytes[0]);
        destination.set(2 * i + 1, bytes[1]);
        proof {
            assert(destination@.subrange(2 * i, 2 * i + 2) =~= bytes@);
            assert forall|k: int| 0 <= k < i implies #[trigger] destination@.subrange(2 * k, 2 * k + 2)
                == before.subrange(2 * k, 2 * k + 2) by {
                assert(destination@.subrange(2 * k, 2 * k + 2) =~= before.subrange(2 * k, 2 * k + 2));
            }
        }
        i += 1;
    }
    assert(units_in_order(destination@, source@, little));
}

/// Preflights a length-prefixed wide replacement without touching storage:
/// the data must be whole units, then the prefix checks apply.
pub fn preflight_u16_str<L: LengthWire>(prefix: &[u8], data: &[u8], value: &[u16]) -> (r: Result<
    (),
    StringMutationError,
>)
    ensures
        r == match wide_capacity_spec(data.len()) {
            Err(e) => Err(e),
            Ok(capacity) => length_prefixed_preflight_spec::<L>(
                value.len(),
                capacity,
                prefix.len(),
            ),
        },
{
    let capacity = match wide_capacity(data) {
        Ok(capacity) => capacity,
        Err(e) => return Err(e),
    };
    preflight_length_prefixed::<L>(value.len(), capacity, prefix.len())
}

/// Whether the wide data `after` holds `value` in its first units in native
/// byte order and keeps every later byte of `before`.
pub open spec fn wide_written(before: Seq<u8>, after: Seq<u8>, value: Seq<u16>) -> bool {
    &&& after.len() == before.len()
    &&& native_units(after.subrange(0, 2 * value.len() as int), value)
    &&& after.subrange(2 * value.len() as int, after.len() as int) == before.subrange(
        2 * value.len() as int,
        before.len() as int,
    )
}

/// Commits a previously preflighted length-prefixed wide replacement; unit
/// capacity after the active value keeps its bytes.
pub fn commit_u16_str<L: LengthWire>(prefix: &mut [u8], data: &mut [u8], value: &[u16])
    requires
        wide_capacity_spec(old(data).len()) matches Ok(capacity)
            && length_prefixed_preflight_spec::<L>(
            value.len(),
            capacity,
            old(prefix).len(),
        ) is Ok,
    ensures
        wide_written(old(data)@, final(data)@, value@),
        L::encodes(value@.len() as nat, final(prefix)@),
{
    let n = value.len();
    let _ = prefix.len();
    let _ = data.len();
    let ghost before = data@;
    {
        let active = slice_between_mut(data, 0, 2 * n);
        store_native_u16s(active, value);
        assert(data@.subrange(0, 2 * n as int) =~= active@);
    }
    assert(data@.subrange(2 * n as int, data@.len() as int) =~= before.subrange(
        2 * n as int,
        before.len() as int,
    ));
    L::store_preflighted(n, prefix);
}

/// Replaces a length-prefixed wide value without clearing unused unit
/// capacity; a rejected replacement leaves prefix and data unchanged.
pub fn set_u16_str<L: LengthWire>(prefix: &mut [u8], data: &mut [u8], value: &[u16]) -> (r: Result<
    (),
    StringMutationError,
>)
    ensures
        r == match wide_capacity_spec(old(data).len()) {
            Err(e) => Err(e),
            Ok(capacity) => length_prefixed_preflight_spec::<L>(
                value.len(),
                capacity,
                old(prefix).len(),
            ),
        },
        r is Err ==> final(prefix)@ == old(prefix)@ && final(data)@ == old(data)@,
        r is Ok ==> wide_written(old(data)@, final(data)@, value@) && L::encodes(
            value@.len() as nat,
            final(prefix)@,
        ),
{
    match preflight_u16_str::<L>(prefix, data, value) {
        Ok(()) => {},
        Err(e) => return Err(e),
    }
    commit_u16_str::<L>(prefix, data, value);
    Ok(())
}

/// The outcome of fitting `length` elements of a terminated string into
/// `capacity`.
pub open spec fn c_str_capacity_spec(length: usize, capacity: usize) -> Result<(), StringMutationError> {
    if length > capacity {
        Err(StringMutationError::CapacityExceeded { length, capacity })
    } else {
        Ok(())
    }
}

/// Preflights a narrow C string replacement, given with its terminator,
/// without touching storage.
pub fn preflight_c_str(data: &[u8], value: &[u8]) -> (r: Result<(), StringMutationError>)
    ensures
        r == c_str_capacity_spec(value.len(), data.len()),
{
    if value.len() > data.len() {
        return Err(StringMutationError::CapacityExceeded { length: value.len(), capacity: data.len() });
    }
    Ok(())
}

/// Commits a previously preflighted narrow C string replacement; bytes after
/// its terminator keep their values.
pub fn commit_c_str(data: &mut [u8], value: &[u8])
    requires
        value@.len() <= old(data)@.len(),
    ensures
        final(data)@ == active_written(old(data)@, value@),
{
    let n = value.len();
    let _ = data.len();
    {
        let active = slice_between_mut(data, 0, n);
        copy_all(active, value);
    }
    assert(data@ =~= active_written(old(data)@, value@));
}

/// Replaces a narrow C string without clearing bytes after its terminator; a
/// rejected replacement leaves the data unchanged.
pub fn set_c_str(data: &mut [u8], value: &[u8]) -> (r: Result<(), StringMutationError>)
    ensures
        r == c_str_capacity_spec(value.len(), old(data).len()),
        r is Err ==> final(data)@ == old(data)@,
        r is Ok ==> final(data)@ == active_written(old(data)@, value@),
{
    match preflight_c_str(data, value) {
        Ok(()) => {},
        Err(e) => return Err(e),
    }
    commit_c_str(data, value);
    Ok(())
}

/// Preflights a wide C string replacement, given with its terminator,
/// without touching storage: the data must be whole units, then the string
/// must fit them.
pub fn preflight_u16_c_str(data: &[u8], value: &[u16]) -> (r: Result<(), StringMutationError>)
    ensures
        r == match wide_capacity_spec(data.len()) {
            Err(e) => Err(e),
            Ok(capacity) => c_str_capacity_spec(value.len(), capacity),
        },
{
    let capacity = match wide_capacity(data) {
        Ok(capacity) => capacity,
        Err(e) => return Err(e),
    };
    if value.len() > capacity {
        return Err(StringMutationError::CapacityExceeded { length: value.len(), capacity });
    }
    Ok(())
}

/// Commits a previously preflighted wide C string replacement; units after
/// its terminator keep their bytes.
pub fn commit_u16_c_str(data: &mut [u8], value: &[u16])
    requires
        2 * value@.len() <= old(data)@.len(),
    ensures
        wide_written(old(data)@, final(data)@, value@),
{
    let n = value.len();
    let _ = data.len();
    let ghost before = data@;
    {
        let active = slice_between_mut(data, 0, 2 * n);
        store_native_u16s(active, value);
        assert(data@.subrange(0, 2 * n as int) =~= active@);
    }
    assert(data@.subrange(2 * n as int, data@.len() as int) =~= before.subrange(
        2 * n as int,
        before.len() as int,
    ));
}

/// Replaces a wide C string without clearing units after its terminator; a
/// rejected replacement leaves the data unchanged.
pub fn set_u16_c_str(data: &mut [u8], value: &[u16]) -> (r: Result<(), StringMutationError>)
    ensures
        r == match wide_capacity_spec(old(data).len()) {
            Err(e) => Err(e),
            Ok(capacity) => c_str_capacity_spec(value.len(), capacity),
        },
        r is Err ==> final(data)@ == old(data)@,
        r is Ok ==> wide_written(old(data)@, final(data)@, value@),
{
    match preflight_u16_c_str(data, value) {
        Ok(()) => {},
        Err(e) => return Err(e),
    }
    commit_u16_c_str(data, value);
    Ok(())
}

/// What a bounded write leaves is read back: the first `value.len()` bytes
/// are `value`, and the capacity after it keeps its previous bytes.
pub proof fn lemma_active_value_reads_back(data: Seq<u8>, value: Seq<u8>)
    requires
        value.len() <= data.len(),
    ensures
        active_written(data, value).len() == data.len(),
        active_written(data, value).subrange(0, value.len() as int) == value,
        active_written(data, value).subrange(value.len() as int, data.len() as int) == data.subrange(
            value.len() as int,
            data.len() as int,
        ),
{
    assert(active_written(data, value).subrange(0, value.len() as int) =~= value);
    assert(active_written(data, value).subrange(value.len() as int, data.len() as int) =~= data.subrange(
        value.len() as int,
        data.len() as int,
    ));
}

/// A narrow C string written over the front of `data` is the string a later
/// proof finds there: storage holds exactly one terminated prefix.
pub proof fn lemma_written_c_str_reads_back(data: Seq<u8>, value: Seq<u8>, found: Seq<u8>)
    requires
        c_str_bytes(value),
        value.len() <= data.len(),
        c_str_bytes(found),
        found.len() <= data.len(),
        found == active_written(data, value).subrange(0, found.len() as int),
    ensures
        found == value,
{
    let written = active_written(data, value);
    lemma_active_value_reads_back(data, value);
    if found.len() < value.len() {
        assert(written[found.len() - 1] == found[found.len() - 1]);
        assert(written[found.len() - 1] == value[found.len() - 1]);
    } else if found.len() > value.len() {
        assert(written[value.len() - 1] == value[value.len() - 1]);
        assert(found[value.len() - 1] == written[value.len() - 1]);
    }
    assert(found =~= value);
}

} // verus!

//! Checked byte ranges and bounded byte copies.

use core::ops::Range;
use vstd::prelude::*;

use crate::error::LayoutError;

verus! {

/// Whether `offset + length` overflows a `usize`.
pub open spec fn range_overflows(offset: usize, length: usize) -> bool {
    offset + length > usize::MAX
}

/// The outcome of checking `offset..offset + length` against `available` bytes:
/// overflow is reported before bounds.
pub open spec fn checked_range_spec(available: usize, offset: usize, length: usize) -> Result<
    (usize, usize),
    LayoutError,
> {
    if range_overflows(offset, length) {
        Err(LayoutError::OffsetOverflow)
    } else if offset + length > available {
        Err(LayoutError::InsufficientBytes { required: (offset + length) as usize, actual: available })
    } else {
        Ok((offset, (offset + length) as usize))
    }
}

/// Lifts a range result to a pair of bounds for comparison with the spec.
pub open spec fn range_pair(r: Result<Range<usize>, LayoutError>) -> Result<(usize, usize), LayoutError> {
    match r {
        Ok(range) => Ok((range.start, range.end)),
        Err(e) => Err(e),
    }
}

/// Computes an in-bounds range after checking addition for overflow.
pub fn checked_range(available: usize, offset: usize, length: usize) -> (r: Result<
    Range<usize>,
    LayoutError,
>)
    ensures
        range_pair(r) == checked_range_spec(available, offset, length),
{
    let end = match offset.checked_add(length) {
        Some(end) => end,
        None => return Err(LayoutError::OffsetOverflow),
    };
    if end > available {
        return Err(LayoutError::InsufficientBytes { required: end, actual: available });
    }
    Ok(offset..end)
}

/// Borrows `bytes[start..end]` as a shared slice.
pub fn slice_between(bytes: &[u8], start: usize, end: usize) -> (r: &[u8])
    requires
        start <= end <= bytes@.len(),
    ensures
        r@ == bytes@.subrange(start as int, end as int),
{
    let (_, rest) = bytes.split_at(start);
    let (mid, _) = rest.split_at(end - start);
    mid
}

/// Borrows `bytes[start..end]` exclusively; the remaining bytes keep their values.
pub fn slice_between_mut(bytes: &mut [u8], start: usize, end: usize) -> (r: &mut [u8])
    requires
        start <= end <= old(bytes)@.len(),
    ensures
        r@ == old(bytes)@.subrange(start as int, end as int),
        final(bytes)@ == old(bytes)@.subrange(0, start as int) + final(r)@ + old(bytes)@.subrange(
            end as int,
            old(bytes)@.len() as int,
        ),
{
    let (_, rest) = bytes.split_at_mut(start);
    let (mid, _) = rest.split_at_mut(end - start);
    mid
}

/// Copies every byte of `source` into `destination`, which has the same length.
pub fn copy_all(destination: &mut [u8], source: &[u8])
    requires
        old(destination)@.len() == source@.len(),
    ensures
        final(destination)@ == source@,
{
    let n = source.len();
    let mut i: usize = 0;
    while i < n
        invariant
            n == source@.len(),
            destination@.len() == n,
            forall|j: int| 0 <= j < i ==> destination@[j] == source@[j],
        decreases n - i,
    {
        destination[i] = source[i];
        i += 1;
    }
    assert(destination@ =~= source@);
}

/// Sets every byte of `destination` to zero.
pub fn fill_zero(destination: &mut [u8])
    ensures
        final(destination)@ == Seq::new(old(destination)@.len(), |i: int| 0u8),
{
    let n = destination.len();
    let mut i: usize = 0;
    while i < n
        invariant
            n == old(destination)@.len(),
            destination@.len() == n,
            forall|j: int| 0 <= j < i ==> destination@[j] == 0u8,
        decreases n - i,
    {
        destination[i] = 0;
        i += 1;
    }
    assert(destination@ =~= Seq::new(n as nat, |i: int| 0u8));
}

/// `base` with `source` written over the bytes starting at `offset`.
pub open spec fn splice(base: Seq<u8>, offset: int, source: Seq<u8>) -> Seq<u8> {
    base.subrange(0, offset) + source + base.subrange(offset + source.len(), base.len() as int)
}

/// Selects a bounded mutable subrange without clearing or initializing it.
pub fn subrange_mut(destination: &mut [u8], offset: usize, length: usize) -> (r: Result<
    &mut [u8],
    LayoutError,
>)
    ensures
        match checked_range_spec(old(destination)@.len() as usize, offset, length) {
            Err(e) => r == Err::<&mut [u8], LayoutError>(e) && final(destination)@ == old(destination)@,
            Ok(_) => match r {
                Ok(slice) => slice@ == old(destination)@.subrange(offset as int, offset + length)
                    && final(destination)@ == old(destination)@.subrange(0, offset as int) + final(slice)@
                    + old(destination)@.subrange(offset + length, old(destination)@.len() as int),
                Err(_) => false,
            },
        },
{
    let range = match checked_range(destination.len(), offset, length) {
        Ok(range) => range,
        Err(e) => return Err(e),
    };
    Ok(slice_between_mut(destination, range.start, range.end))
}

/// Copies `source` into one bounded destination range.
pub fn copy_bytes_at(destination: &mut [u8], offset: usize, source: &[u8]) -> (r: Result<(), LayoutError>)
    ensures
        match checked_range_spec(old(destination)@.len() as usize, offset, source@.len() as usize) {
            Err(e) => r == Err::<(), LayoutError>(e) && final(destination)@ == old(destination)@,
            Ok(_) => r is Ok && final(destination)@ == splice(old(destination)@, offset as int, source@),
        },
{
    let range = match checked_range(destination.len(), offset, source.len()) {
        Ok(range) => range,
        Err(e) => return Err(e),
    };
    let target = slice_between_mut(destination, range.start, range.end);
    copy_all(target, source);
    Ok(())
}

/// Copies a whole source only when the destination has exactly the same length.
pub fn copy_exact(destination: &mut [u8], source: &[u8]) -> (r: Result<(), LayoutError>)
    ensures
        old(destination)@.len() != source@.len() ==> r == Err::<(), LayoutError>(
            LayoutError::IncorrectSize {
                expected: old(destination)@.len() as usize,
                actual: source@.len() as usize,
            },
        ) && final(destination)@ == old(destination)@,
        old(destination)@.len() == source@.len() ==> r is Ok && final(destination)@ == source@,
{
    if destination.len() != source.len() {
        return Err(LayoutError::IncorrectSize { expected: destination.len(), actual: source.len() });
    }
    copy_all(destination, source);
    Ok(())
}

} // verus!

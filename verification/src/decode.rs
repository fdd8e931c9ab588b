//! Exact wire byte spans selected for decoding.

use core::marker::PhantomData;
use vstd::prelude::*;

use crate::access::{aligned_address, alignment_outcome, exact_address, exact_outcome, unit_of};
use crate::address::SpanAddress;
use crate::error::LayoutError;
use crate::mutation::{checked_range, slice_between};

verus! {

/// The exact bytes of one wire value of type `W`.
///
/// Keeping the input bytes themselves is what allows inspecting padding without
/// ever treating an aggregate wire value as bytes.
pub struct DecodeInput<'src, W> {
    bytes: &'src [u8],
    at: SpanAddress,
    marker: PhantomData<W>,
}

impl<'src, W> DecodeInput<'src, W> {
    /// Every input spans exactly one `W`.
    #[verifier::type_invariant]
    spec fn spans_one_wire(self) -> bool {
        self.bytes@.len() == vstd::layout::size_of::<W>()
    }
}

impl<'src, W> Clone for DecodeInput<'src, W> {
    fn clone(&self) -> (r: Self)
        ensures
            r@ == self@,
    {
        proof {
            use_type_invariant(self);
        }
        DecodeInput { bytes: self.bytes, at: self.at, marker: PhantomData }
    }
}

impl<'src, W> Copy for DecodeInput<'src, W> {

}

impl<'src, W> View for DecodeInput<'src, W> {
    type V = Seq<u8>;

    closed spec fn view(&self) -> Seq<u8> {
        self.bytes@
    }
}

/// The outcome of selecting the first `W` from `len` bytes: too few bytes are
/// reported before alignment is examined.
pub open spec fn prefix_outcome<W>(len: nat, r: Result<(), LayoutError>) -> bool {
    if len < vstd::layout::size_of::<W>() {
        r == Err::<(), LayoutError>(
            LayoutError::InsufficientBytes {
                required: vstd::layout::size_of::<W>() as usize,
                actual: len as usize,
            },
        )
    } else {
        alignment_outcome(vstd::layout::align_of::<W>(), r)
    }
}

/// The outcome of selecting a `F` at `offset` inside `len` bytes: overflow,
/// then bounds, then alignment of the selected bytes.
pub open spec fn subrange_outcome<F>(len: nat, offset: usize, r: Result<(), LayoutError>) -> bool {
    let size = vstd::layout::size_of::<F>();
    if offset + size > usize::MAX {
        r == Err::<(), LayoutError>(LayoutError::OffsetOverflow)
    } else if offset + size > len {
        r == Err::<(), LayoutError>(
            LayoutError::InsufficientBytes { required: (offset + size) as usize, actual: len as usize },
        )
    } else {
        alignment_outcome(vstd::layout::align_of::<F>(), r)
    }
}

impl<'src, W> DecodeInput<'src, W> {
    /// The address of the first byte of this input's span, taken when the
    /// span was checked or selected.
    pub closed spec fn address(&self) -> usize {
        self.at.spec_value()
    }

    /// Constructs an input whose byte range is exactly one `W`, starting at
    /// an address that is a multiple of the alignment of `W`.
    pub fn from_exact(bytes: &'src [u8]) -> (r: Result<Self, LayoutError>)
        ensures
            exact_outcome::<W>(bytes@.len(), unit_of(r)),
            r matches Ok(input) ==> input@ == bytes@,
            r matches Ok(input) ==> input.address() as nat % vstd::layout::align_of::<W>() == 0,
    {
        match exact_address::<W>(bytes) {
            Ok(at) => Ok(DecodeInput { bytes, at, marker: PhantomData }),
            Err(e) => Err(e),
        }
    }

    /// Views bytes already selected and checked as exactly one `W`.
    pub(crate) fn exact_span(bytes: &'src [u8]) -> (r: Self)
        requires
            bytes@.len() == vstd::layout::size_of::<W>(),
        ensures
            r@ == bytes@,
    {
        DecodeInput { bytes, at: SpanAddress::of(bytes), marker: PhantomData }
    }

    /// Constructs an input from the first complete `W` in `bytes`.
    pub fn from_prefix(bytes: &'src [u8]) -> (r: Result<Self, LayoutError>)
        ensures
            prefix_outcome::<W>(bytes@.len(), unit_of(r)),
            r matches Ok(input) ==> input@ == bytes@.subrange(0, vstd::layout::size_of::<W>() as int),
            r matches Ok(input) ==> input.address() as nat % vstd::layout::align_of::<W>() == 0,
    {
        let required = core::mem::size_of::<W>();
        if bytes.len() < required {
            return Err(LayoutError::InsufficientBytes { required, actual: bytes.len() });
        }
        match aligned_address::<W>(bytes) {
            Ok(at) => Ok(DecodeInput { bytes: slice_between(bytes, 0, required), at, marker: PhantomData }),
            Err(e) => Err(e),
        }
    }

    /// Returns the exact bytes of this wire value, including any padding.
    pub fn bytes(&self) -> (r: &'src [u8])
        ensures
            r@ == self@,
            r@.len() == vstd::layout::size_of::<W>(),
    {
        proof {
            use_type_invariant(self);
        }
        self.bytes
    }

    /// Selects the `F` at `offset`: offset overflow, then a shortage of bytes
    /// for the requested range, then misalignment of the selected bytes.
    pub fn subrange<F>(&self, offset: usize) -> (r: Result<DecodeInput<'src, F>, LayoutError>)
        ensures
            subrange_outcome::<F>(self@.len(), offset, unit_of(r)),
            r matches Ok(input) ==> input@ == self@.subrange(
                offset as int,
                offset + vstd::layout::size_of::<F>(),
            ),
            r matches Ok(input) ==> input.address() as nat % vstd::layout::align_of::<F>() == 0,
    {
        vstd::layout::layout_for_type_is_valid::<F>();
        let required = core::mem::size_of::<F>();
        let range = match checked_range(self.bytes.len(), offset, required) {
            Ok(range) => range,
            Err(e) => return Err(e),
        };
        match DecodeInput::from_exact(slice_between(self.bytes, range.start, range.end)) {
            Ok(input) => Ok(input),
            Err(LayoutError::Misaligned { required, address }) => Err(
                LayoutError::Misaligned { required, address },
            ),
            Err(_) => Err(LayoutError::InsufficientBytes { required: range.end, actual: self.bytes.len() }),
        }
    }

    /// Shortens the input lifetime without changing its bytes.
    pub fn shorten<'short>(&self) -> (r: DecodeInput<'short, W>)
        where
            'src: 'short,
        ensures
            r@ == self@,
    {
        proof {
            use_type_invariant(self);
        }
        DecodeInput { bytes: self.bytes, at: self.at, marker: PhantomData }
    }
}

} // verus!

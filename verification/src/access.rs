//! Checked byte inputs used by generated access capabilities.
//!
//! These types retain the original, exact byte span. They deliberately do not
//! decode logical values or expose the complete backing allocation.

use core::marker::PhantomData;
use vstd::prelude::*;

use crate::address::SpanAddress;
use crate::error::LayoutError;
use crate::mutation::{checked_range, checked_range_spec, fill_zero, slice_between, slice_between_mut};
use crate::__private::{InputAccess, RootInputAccess};
use crate::decode::DecodeInput;
use crate::schema::ScalarWire;

verus! {

broadcast use vstd::array::group_array_axioms;

/// Initialized, correctly aligned receiving storage for producer-owned wire bytes.
///
/// `W` supplies alignment only; it is an opaque wire projection rather than a
/// value stored in this buffer. `N` is the root schema's exact byte size.
/// Construction fills the byte array with zeroes solely to initialize memory.
/// Those bytes have no schema interpretation: validity is established only by
/// the root's access operation after a producer has populated the storage.
pub struct SchemaBuffer<W, const N: usize> {
    _align: [W; 0],
    bytes: [u8; N],
}

impl<W, const N: usize> SchemaBuffer<W, N> {
    /// The current receiving bytes.
    pub closed spec fn spec_bytes(&self) -> Seq<u8> {
        self.bytes@
    }

    /// Creates initialized receiving storage with no implied schema validity.
    pub fn new() -> (r: Self)
        ensures
            r.spec_bytes() == Seq::new(N as nat, |i: int| 0u8),
    {
        let bytes: [u8; N] = [0u8; N];
        let r = SchemaBuffer { _align: [], bytes };
        assert(r.spec_bytes() =~= Seq::new(N as nat, |i: int| 0u8));
        r
    }

    /// Returns exactly the root's receiving byte span.
    pub fn as_bytes(&self) -> (r: &[u8])
        ensures
            r@ == self.spec_bytes(),
    {
        self.bytes.as_slice()
    }

    /// Returns exactly the root's mutable receiving byte span.
    ///
    /// Mutating these initialized bytes does not establish schema validity.
    pub fn as_bytes_mut(&mut self) -> (r: &mut [u8])
        ensures
            r@ == old(self).spec_bytes(),
            final(self).spec_bytes() == final(r)@,
    {
        &mut self.bytes
    }
}

impl<W, const N: usize> Default for SchemaBuffer<W, N> {
    fn default() -> (r: Self)
        ensures
            r.spec_bytes() == Seq::new(N as nat, |i: int| 0u8),
    {
        Self::new()
    }
}

/// The address of a slice's first byte.
///
/// Where an allocation lies is a fact about the running process; this
/// contract says nothing about it.
#[verifier::external_body]
pub(crate) fn slice_address(bytes: &[u8]) -> usize {
    bytes.as_ptr() as usize
}

/// The outcome of an alignment check for a wire type with alignment `required`:
/// success, or a misalignment report naming `required` and an address that
/// is not a multiple of it.
pub open spec fn alignment_outcome(required: nat, r: Result<(), LayoutError>) -> bool {
    match r {
        Ok(()) => true,
        Err(LayoutError::Misaligned { required: reported, address }) => reported as nat == required
            && address % reported != 0,
        Err(_) => false,
    }
}

/// Whether `address` is a multiple of `required`: success, or a
/// misalignment report naming both.
pub open spec fn alignment_result_spec(address: usize, required: usize) -> Result<(), LayoutError> {
    if address % required == 0 {
        Ok(())
    } else {
        Err(LayoutError::Misaligned { required, address })
    }
}

/// The alignment check accepts an address exactly when it is a multiple of
/// the alignment, and otherwise reports that alignment and that address.
pub proof fn lemma_alignment_decides(address: usize, required: usize)
    requires
        required > 0,
    ensures
        alignment_result_spec(address, required) is Ok <==> address % required == 0,
        address % required != 0 ==> alignment_result_spec(address, required) == Err::<(), LayoutError>(
            LayoutError::Misaligned { required, address },
        ),
        alignment_outcome(required as nat, alignment_result_spec(address, required)),
{
}

/// Checks one address against a nonzero alignment.
pub fn alignment_result(address: usize, required: usize) -> (r: Result<(), LayoutError>)
    requires
        required > 0,
    ensures
        r == alignment_result_spec(address, required),
        r is Ok <==> address % required == 0,
{
    if address % required != 0 {
        return Err(LayoutError::Misaligned { required, address });
    }
    Ok(())
}

/// Checks that `bytes` starts at an address aligned for `W`: the slice's
/// address is taken once and checked against the alignment of `W`.
#[allow(dead_code)]
pub(crate) fn check_alignment<W>(bytes: &[u8]) -> (r: Result<(), LayoutError>)
    ensures
        alignment_outcome(vstd::layout::align_of::<W>(), r),
{
    match aligned_address::<W>(bytes) {
        Ok(_) => Ok(()),
        Err(e) => Err(e),
    }
}

/// Checks that `bytes` starts at an address aligned for `W` and hands back
/// the address it checked, which is a multiple of the alignment of `W`.
pub(crate) fn aligned_address<W>(bytes: &[u8]) -> (r: Result<SpanAddress, LayoutError>)
    ensures
        alignment_outcome(vstd::layout::align_of::<W>(), unit_of(r)),
        r matches Ok(at) ==> at.spec_value() as nat % vstd::layout::align_of::<W>() == 0,
{
    vstd::layout::layout_for_type_is_valid::<W>();
    let required = core::mem::align_of::<W>();
    let at = SpanAddress::of(bytes);
    match alignment_result(at.get(), required) {
        Ok(()) => Ok(at),
        Err(e) => Err(e),
    }
}

/// The outcome of checking `len` bytes as exactly one `W`: a size mismatch is
/// reported before alignment is examined.
pub open spec fn exact_outcome<W>(len: nat, r: Result<(), LayoutError>) -> bool {
    if len != vstd::layout::size_of::<W>() {
        r == Err::<(), LayoutError>(
            LayoutError::IncorrectSize {
                expected: vstd::layout::size_of::<W>() as usize,
                actual: len as usize,
            },
        )
    } else {
        alignment_outcome(vstd::layout::align_of::<W>(), r)
    }
}

/// Drops the payload of a result, keeping only whether and how it failed.
pub open spec fn unit_of<T>(r: Result<T, LayoutError>) -> Result<(), LayoutError> {
    match r {
        Ok(_) => Ok(()),
        Err(e) => Err(e),
    }
}

/// Checks that `bytes` is exactly one aligned `W`.
#[allow(dead_code)]
pub(crate) fn check_exact<W>(bytes: &[u8]) -> (r: Result<(), LayoutError>)
    ensures
        exact_outcome::<W>(bytes@.len(), r),
{
    match exact_address::<W>(bytes) {
        Ok(_) => Ok(()),
        Err(e) => Err(e),
    }
}

/// Checks that `bytes` is exactly one aligned `W` and hands back the address
/// it checked, which is a multiple of the alignment of `W`.
pub(crate) fn exact_address<W>(bytes: &[u8]) -> (r: Result<SpanAddress, LayoutError>)
    ensures
        exact_outcome::<W>(bytes@.len(), unit_of(r)),
        r matches Ok(at) ==> at.spec_value() as nat % vstd::layout::align_of::<W>() == 0,
{
    let expected = core::mem::size_of::<W>();
    if bytes.len() != expected {
        return Err(LayoutError::IncorrectSize { expected, actual: bytes.len() });
    }
    aligned_address::<W>(bytes)
}

/// The outcome of reading the scalar wire `F` at `offset` of `bytes`: a
/// range error first; then a misaligned wire, a wire whose width is not its
/// size, or the value its bytes encode.
pub open spec fn read_copy_outcome<F: ScalarWire>(
    bytes: Seq<u8>,
    offset: usize,
    r: Result<F::Repr, LayoutError>,
) -> bool {
    let size = vstd::layout::size_of::<F>();
    match checked_range_spec(bytes.len() as usize, offset, size as usize) {
        Err(e) => r == Err::<F::Repr, LayoutError>(e),
        Ok(_) => match r {
            Ok(value) => F::width() == size && F::encodes(
                value,
                bytes.subrange(offset as int, offset + size),
            ),
            Err(LayoutError::IncorrectSize { expected, actual }) => F::width() != size && expected
                == F::width() as usize && actual == size,
            Err(e) => alignment_outcome(vstd::layout::align_of::<F>(), Err(e)),
        },
    }
}

/// Exact, checked shared input for one all-bit-valid wire value.
pub struct SharedInput<'bytes, W> {
    bytes: &'bytes [u8],
    at: SpanAddress,
    marker: PhantomData<W>,
}

impl<'bytes, W> Clone for SharedInput<'bytes, W> {
    fn clone(&self) -> (r: Self)
        ensures
            r@ == self@,
    {
        SharedInput { bytes: self.bytes, at: self.at, marker: PhantomData }
    }
}

impl<'bytes, W> Copy for SharedInput<'bytes, W> {

}

impl<'bytes, W> View for SharedInput<'bytes, W> {
    type V = Seq<u8>;

    closed spec fn view(&self) -> Seq<u8> {
        self.bytes@
    }
}

impl<'bytes, W> SharedInput<'bytes, W> {
    /// The address of the first byte of this input's span, taken when the
    /// span was checked or selected.
    pub closed spec fn address(&self) -> usize {
        self.at.spec_value()
    }

    /// Exact constructor used after a checked root or field range has already
    /// established its bounds; it checks size, then alignment. An accepted
    /// span starts at an address that is a multiple of the alignment of `W`.
    pub fn from_checked(bytes: &'bytes [u8]) -> (r: Result<Self, LayoutError>)
        ensures
            exact_outcome::<W>(bytes@.len(), unit_of(r)),
            r matches Ok(input) ==> input@ == bytes@,
            r matches Ok(input) ==> input.address() as nat % vstd::layout::align_of::<W>() == 0,
    {
        match exact_address::<W>(bytes) {
            Ok(at) => Ok(SharedInput { bytes, at, marker: PhantomData }),
            Err(e) => Err(e),
        }
    }

    /// Views already selected element bytes; callers select exact ranges.
    pub(crate) fn selected(bytes: &'bytes [u8]) -> (r: Self)
        ensures
            r@ == bytes@,
    {
        SharedInput { bytes, at: SpanAddress::of(bytes), marker: PhantomData }
    }

    /// The bytes of this input.
    pub(crate) fn bytes_of(&self) -> (r: &'bytes [u8])
        ensures
            r@ == self@,
    {
        self.bytes
    }

    /// Tests whether every byte in this exact checked span is zero.
    ///
    /// This deliberately exposes no byte slice. Optional fields use it only
    /// over their complete declared storage, including local padding.
    pub fn is_all_zero(&self) -> (r: bool)
        ensures
            r == (forall|i: int| 0 <= i < self@.len() ==> self@[i] == 0u8),
    {
        let n = self.bytes.len();
        let mut i: usize = 0;
        while i < n
            invariant
                n == self@.len(),
                forall|j: int| 0 <= j < i ==> self@[j] == 0u8,
            decreases n - i,
        {
            if self.bytes[i] != 0 {
                return false;
            }
            i += 1;
        }
        true
    }

    /// Copies out the value of the scalar wire `F` at `offset`.
    pub fn read_copy<F: ScalarWire>(&self, offset: usize) -> (r: Result<F::Repr, LayoutError>)
        ensures
            read_copy_outcome::<F>(self@, offset, r),
    {
        vstd::layout::layout_for_type_is_valid::<F>();
        let selected = match self.subrange::<F>(offset) {
            Ok(selected) => selected,
            Err(e) => {
                return Err(e);
            },
        };
        F::read_from(DecodeInput::exact_span(selected.bytes_of()))
    }

    /// Selects another exact, checked wire subrange of the width of `F`.
    pub fn subrange<F>(&self, offset: usize) -> (r: Result<SharedInput<'bytes, F>, LayoutError>)
        ensures
            match checked_range_spec(
                self@.len() as usize,
                offset,
                vstd::layout::size_of::<F>() as usize,
            ) {
                Err(e) => r == Err::<SharedInput<'bytes, F>, LayoutError>(e),
                Ok(_) => exact_outcome::<F>(vstd::layout::size_of::<F>(), unit_of(r)),
            },
            r matches Ok(input) ==> input@ == self@.subrange(
                offset as int,
                offset + vstd::layout::size_of::<F>(),
            ),
            r matches Ok(input) ==> input.address() as nat % vstd::layout::align_of::<F>() == 0,
    {
        vstd::layout::layout_for_type_is_valid::<F>();
        let range = match checked_range(self.bytes.len(), offset, core::mem::size_of::<F>()) {
            Ok(range) => range,
            Err(e) => return Err(e),
        };
        SharedInput::from_checked(slice_between(self.bytes, range.start, range.end))
    }

    /// Returns a bounded byte subrange for generated field support only.
    pub fn subrange_bytes<B: InputAccess>(
        &self,
        offset: usize,
        length: usize,
        token: B::Token,
    ) -> (r: Result<&'bytes [u8], LayoutError>)
        ensures
            match checked_range_spec(self@.len() as usize, offset, length) {
                Err(e) => r == Err::<&'bytes [u8], LayoutError>(e),
                Ok(_) => r matches Ok(slice) && slice@ == self@.subrange(
                    offset as int,
                    offset + length,
                ),
            },
    {
        let range = match checked_range(self.bytes.len(), offset, length) {
            Ok(range) => range,
            Err(e) => return Err(e),
        };
        Ok(slice_between(self.bytes, range.start, range.end))
    }

    /// Shortens the capability lifetime without changing the checked span.
    pub fn shorten<'short>(&self) -> (r: SharedInput<'short, W>)
        where
            'bytes: 'short,
        ensures
            r@ == self@,
    {
        SharedInput { bytes: self.bytes, at: self.at, marker: PhantomData }
    }
}

impl<'bytes, W: RootInputAccess> SharedInput<'bytes, W> {
    /// Checks one root wire span. Its private token prevents arbitrary
    /// initialized bytes from becoming a schema input.
    pub fn from_exact(bytes: &'bytes [u8], token: W::Token) -> (r: Result<Self, LayoutError>)
        ensures
            exact_outcome::<W>(bytes@.len(), unit_of(r)),
            r matches Ok(input) ==> input@ == bytes@,
            r matches Ok(input) ==> input.address() as nat % vstd::layout::align_of::<W>() == 0,
    {
        Self::from_checked(bytes)
    }
}


/// Exact, checked exclusive input for one all-bit-valid wire value.
///
/// The mutable slice remains the authority for storage. Shared views are
/// re-formed only for short borrows.
pub struct ExclusiveInput<'bytes, W> {
    pub(crate) bytes: &'bytes mut [u8],
    pub(crate) at: SpanAddress,
    pub(crate) marker: PhantomData<W>,
}

impl<'bytes, W> View for ExclusiveInput<'bytes, W> {
    type V = Seq<u8>;

    closed spec fn view(&self) -> Seq<u8> {
        self.bytes@
    }
}

impl<'bytes, W> ExclusiveInput<'bytes, W> {
    /// The borrowed storage: what it holds once this input is released is
    /// `final(self.storage())`.
    pub closed spec fn storage(&self) -> &'bytes mut [u8] {
        self.bytes
    }

    /// Once an input is released, the borrowed storage holds what its view
    /// last showed.
    pub proof fn lemma_released(self)
        requires
            has_resolved(self),
        ensures
            final(self.storage())@ == self@,
    {
    }

    /// The address of the first byte of this input's span, taken when the
    /// span was checked or selected.
    pub closed spec fn address(&self) -> usize {
        self.at.spec_value()
    }

    /// Exact constructor used after a checked root or field range has already
    /// established its bounds; it checks size, then alignment. On success the
    /// input borrows exactly `bytes`; on failure `bytes` is left as it was.
    pub fn from_checked(bytes: &'bytes mut [u8]) -> (r: Result<Self, LayoutError>)
        ensures
            exact_outcome::<W>(old(bytes)@.len(), unit_of(r)),
            r matches Ok(input) ==> input@ == old(bytes)@ && final(input.storage())@ == final(bytes)@,
            r matches Ok(input) ==> input.address() as nat % vstd::layout::align_of::<W>() == 0,
            r is Err ==> final(bytes)@ == old(bytes)@,
    {
        match exact_address::<W>(bytes) {
            Ok(at) => Ok(ExclusiveInput { bytes, at, marker: PhantomData }),
            Err(e) => Err(e),
        }
    }

    /// Exclusively views already selected bytes; callers select exact ranges.
    pub(crate) fn selected_mut(bytes: &'bytes mut [u8]) -> (r: Self)
        ensures
            r@ == old(bytes)@,
            final(r.storage())@ == final(bytes)@,
    {
        let at = SpanAddress::of(bytes);
        ExclusiveInput { bytes, at, marker: PhantomData }
    }

    /// Borrows the checked span as a shared capability.
    pub fn shared(&self) -> (r: SharedInput<'_, W>)
        ensures
            r@ == self@,
    {
        SharedInput { bytes: &*self.bytes, at: self.at, marker: PhantomData }
    }

    /// Copies out the value of the scalar wire `F` at `offset`.
    pub fn read_copy<F: ScalarWire>(&self, offset: usize) -> (r: Result<F::Repr, LayoutError>)
        ensures
            read_copy_outcome::<F>(self@, offset, r),
    {
        self.shared().read_copy::<F>(offset)
    }

    /// Selects a short shared typed field subrange of the width of `F`.
    pub fn subrange<F>(&self, offset: usize) -> (r: Result<SharedInput<'_, F>, LayoutError>)
        ensures
            match checked_range_spec(
                self@.len() as usize,
                offset,
                vstd::layout::size_of::<F>() as usize,
            ) {
                Err(e) => r == Err::<SharedInput<'_, F>, LayoutError>(e),
                Ok(_) => exact_outcome::<F>(vstd::layout::size_of::<F>(), unit_of(r)),
            },
            r matches Ok(input) ==> input@ == self@.subrange(
                offset as int,
                offset + vstd::layout::size_of::<F>(),
            ),
            r matches Ok(input) ==> input.address() as nat % vstd::layout::align_of::<F>() == 0,
    {
        self.shared().subrange(offset)
    }

    /// Selects a short exclusive typed field subrange of the width of `F`.
    pub fn subrange_mut<F>(&mut self, offset: usize) -> (r: Result<ExclusiveInput<'_, F>, LayoutError>)
        ensures
            match checked_range_spec(
                old(self)@.len() as usize,
                offset,
                vstd::layout::size_of::<F>() as usize,
            ) {
                Err(e) => r == Err::<ExclusiveInput<'_, F>, LayoutError>(e),
                Ok(_) => exact_outcome::<F>(vstd::layout::size_of::<F>(), unit_of(r)),
            },
            r matches Ok(input) ==> input.address() as nat % vstd::layout::align_of::<F>() == 0,
            r matches Ok(input) ==> input@ == old(self)@.subrange(
                offset as int,
                offset + vstd::layout::size_of::<F>(),
            ) && final(self)@ == old(self)@.subrange(0, offset as int) + final(input.storage())@
                + old(self)@.subrange(
                offset + vstd::layout::size_of::<F>(),
                old(self)@.len() as int,
            ),
            r is Err ==> final(self)@ == old(self)@,
            final(final(self).storage())@ == final(old(self).storage())@,
    {
        vstd::layout::layout_for_type_is_valid::<F>();
        let range = match checked_range(self.bytes.len(), offset, core::mem::size_of::<F>()) {
            Ok(range) => range,
            Err(e) => return Err(e),
        };
        ExclusiveInput::from_checked(slice_between_mut(self.bytes, range.start, range.end))
    }

    /// Returns a bounded shared field slice for generated support only.
    pub fn subrange_bytes<B: InputAccess>(&self, offset: usize, length: usize, token: B::Token) -> (r:
        Result<&[u8], LayoutError>)
        ensures
            match checked_range_spec(self@.len() as usize, offset, length) {
                Err(e) => r == Err::<&[u8], LayoutError>(e),
                Ok(_) => r matches Ok(slice) && slice@ == self@.subrange(offset as int, offset + length),
            },
    {
        let range = match checked_range(self.bytes.len(), offset, length) {
            Ok(range) => range,
            Err(e) => return Err(e),
        };
        Ok(slice_between(self.bytes, range.start, range.end))
    }

    /// Returns a bounded exclusive field slice for generated support only.
    /// Bytes outside the selected range keep their values.
    pub fn subrange_bytes_mut<B: InputAccess>(
        &mut self,
        offset: usize,
        length: usize,
        token: B::Token,
    ) -> (r: Result<&mut [u8], LayoutError>)
        ensures
            match checked_range_spec(old(self)@.len() as usize, offset, length) {
                Err(e) => r == Err::<&mut [u8], LayoutError>(e) && final(self)@ == old(self)@,
                Ok(_) => match r {
                    Ok(slice) => slice@ == old(self)@.subrange(offset as int, offset + length)
                        && final(self)@ == old(self)@.subrange(0, offset as int) + final(slice)@
                        + old(self)@.subrange(offset + length, old(self)@.len() as int),
                    Err(_) => false,
                },
            },
            final(final(self).storage())@ == final(old(self).storage())@,
    {
        let range = match checked_range(self.bytes.len(), offset, length) {
            Ok(range) => range,
            Err(e) => return Err(e),
        };
        Ok(slice_between_mut(self.bytes, range.start, range.end))
    }

    /// Exclusively borrows `start..end` of this input; the other bytes keep
    /// their values.
    pub(crate) fn window_mut(&mut self, start: usize, end: usize) -> (r: &mut [u8])
        requires
            start <= end <= old(self)@.len(),
        ensures
            r@ == old(self)@.subrange(start as int, end as int),
            final(self)@ == old(self)@.subrange(0, start as int) + final(r)@ + old(self)@.subrange(
                end as int,
                old(self)@.len() as int,
            ),
            final(final(self).storage())@ == final(old(self).storage())@,
    {
        slice_between_mut(self.bytes, start, end)
    }

    /// The length of this input.
    pub(crate) fn len(&self) -> (r: usize)
        ensures
            r as nat == self@.len(),
    {
        self.bytes.len()
    }

    /// Clears this complete exact checked input while retaining a private
    /// token gate. It cannot select an arbitrary parent range.
    pub fn clear_all<B: InputAccess>(&mut self, token: B::Token)
        ensures
            final(self)@ == Seq::new(old(self)@.len(), |i: int| 0u8),
            final(final(self).storage())@ == final(old(self).storage())@,
    {
        fill_zero(self.bytes);
    }

    /// Reborrows the whole checked input exclusively for a shorter lifetime.
    pub fn reborrow(&mut self) -> (r: ExclusiveInput<'_, W>)
        ensures
            r@ == old(self)@,
            final(self)@ == final(r.storage())@,
            final(final(self).storage())@ == final(old(self).storage())@,
    {
        ExclusiveInput { bytes: &mut *self.bytes, at: self.at, marker: PhantomData }
    }
}

impl<'bytes, W: RootInputAccess> ExclusiveInput<'bytes, W> {
    /// Checks one root wire span. Its private token prevents arbitrary
    /// initialized bytes from becoming a schema input.
    pub fn from_exact(bytes: &'bytes mut [u8], token: W::Token) -> (r: Result<Self, LayoutError>)
        ensures
            exact_outcome::<W>(old(bytes)@.len(), unit_of(r)),
            r matches Ok(input) ==> input@ == old(bytes)@ && final(input.storage())@ == final(bytes)@,
            r matches Ok(input) ==> input.address() as nat % vstd::layout::align_of::<W>() == 0,
            r is Err ==> final(bytes)@ == old(bytes)@,
    {
        Self::from_checked(bytes)
    }
}

/// Exact shared schema proof branded by the support that validated it.
///
/// This token owns the same checked byte span used for validation. Its
/// constructor is crate-private so layout-only [`SharedInput`] values cannot
/// be upgraded into a logical capability by downstream code.
pub struct ProvedShared<'wire, Brand, W> {
    input: SharedInput<'wire, W>,
    brand: PhantomData<Brand>,
}

impl<'wire, Brand, W> View for ProvedShared<'wire, Brand, W> {
    type V = Seq<u8>;

    closed spec fn view(&self) -> Seq<u8> {
        self.input@
    }
}

impl<'wire, Brand: InputAccess, W> ProvedShared<'wire, Brand, W> {
    pub(crate) fn new(input: SharedInput<'wire, W>) -> (r: Self)
        ensures
            r@ == input@,
    {
        ProvedShared { input, brand: PhantomData }
    }

    /// Consumes this evidence and returns its exact layout-only input.
    pub fn into_input(self, token: Brand::Token) -> (r: SharedInput<'wire, W>)
        ensures
            r@ == self@,
    {
        self.input
    }

    /// Borrows the same proved span for a shorter capability lifetime.
    pub fn shorten<'short>(&self) -> (r: ProvedShared<'short, Brand, W>)
        where
            'wire: 'short,
        ensures
            r@ == self@,
    {
        ProvedShared { input: self.input.shorten(), brand: PhantomData }
    }
}

/// Exact exclusive schema proof branded by the support that validated it.
///
/// It has no raw mutable reborrow: evidence may only be consumed, shared, or
/// reborrowed with the same brand and exact span.
pub struct ProvedExclusive<'wire, Brand, W> {
    input: ExclusiveInput<'wire, W>,
    brand: PhantomData<Brand>,
}

impl<'wire, Brand, W> View for ProvedExclusive<'wire, Brand, W> {
    type V = Seq<u8>;

    closed spec fn view(&self) -> Seq<u8> {
        self.input@
    }
}

impl<'wire, Brand, W> ProvedExclusive<'wire, Brand, W> {
    /// The borrowed storage: what it holds once this evidence is released is
    /// `final(self.storage())`.
    pub closed spec fn storage(&self) -> &'wire mut [u8] {
        self.input.storage()
    }

    /// Once the evidence is released, the borrowed storage holds what its
    /// view last showed.
    pub proof fn lemma_released(self)
        requires
            has_resolved(self),
        ensures
            final(self.storage())@ == self@,
    {
        self.input.lemma_released();
    }
}

impl<'wire, Brand: InputAccess, W> ProvedExclusive<'wire, Brand, W> {
    pub(crate) fn new(input: ExclusiveInput<'wire, W>) -> (r: Self)
        ensures
            r@ == input@,
            r.storage() == input.storage(),
    {
        ProvedExclusive { input, brand: PhantomData }
    }

    /// Reborrows the exact proved span as shared evidence with the same brand.
    pub fn shared(&self) -> (r: ProvedShared<'_, Brand, W>)
        ensures
            r@ == self@,
    {
        ProvedShared::new(self.input.shared())
    }

    /// Reborrows the exact proved span exclusively with the same brand.
    pub fn reborrow(&mut self) -> (r: ProvedExclusive<'_, Brand, W>)
        ensures
            r@ == old(self)@,
            final(self)@ == final(r.storage())@,
            final(final(self).storage())@ == final(old(self).storage())@,
    {
        ProvedExclusive::new(self.input.reborrow())
    }

    /// Consumes this evidence and returns its exact layout-only input.
    pub fn into_input(self, token: Brand::Token) -> (r: ExclusiveInput<'wire, W>)
        ensures
            r@ == self@,
            r.storage() == self.storage(),
    {
        self.input
    }
}

} // verus!

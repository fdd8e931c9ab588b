//! Zero-initialized aligned storage and bounded writers.

use vstd::prelude::*;

use crate::error::LayoutError;
use crate::mutation::{checked_range, checked_range_spec, copy_all, fill_zero, slice_between_mut, splice};

verus! {

broadcast use vstd::array::group_array_axioms;

/// Initialized byte storage whose address satisfies the alignment of `W`.
///
/// The zero-length `_align` field carries alignment without storing a `W`.
/// The public byte view is always exactly `N` bytes long; the value itself may
/// include trailing padding so that its size is a multiple of the alignment.
pub struct AlignedBytes<W, const N: usize> {
    _align: [W; 0],
    bytes: [u8; N],
}

impl<W, const N: usize> AlignedBytes<W, N> {
    /// The current stored bytes.
    pub closed spec fn spec_bytes(&self) -> Seq<u8> {
        self.bytes@
    }

    /// Creates an initialized buffer containing exactly `N` zero bytes.
    pub fn zeroed() -> (r: Self)
        ensures
            r.spec_bytes() == Seq::new(N as nat, |i: int| 0u8),
    {
        let bytes: [u8; N] = [0u8; N];
        let r = AlignedBytes { _align: [], bytes };
        assert(r.spec_bytes() =~= Seq::new(N as nat, |i: int| 0u8));
        r
    }

    /// Returns the initialized `N`-byte wire storage.
    pub fn as_bytes(&self) -> (r: &[u8])
        ensures
            r@ == self.spec_bytes(),
    {
        self.bytes.as_slice()
    }

    /// Returns mutable access to the initialized `N`-byte wire storage.
    pub fn as_bytes_mut(&mut self) -> (r: &mut [u8])
        ensures
            r@ == old(self).spec_bytes(),
            final(self).spec_bytes() == final(r)@,
    {
        &mut self.bytes
    }
}

impl<W, const N: usize> AsRef<[u8]> for AlignedBytes<W, N> {
    fn as_ref(&self) -> (r: &[u8])
        ensures
            r@ == self.spec_bytes(),
    {
        self.as_bytes()
    }
}

impl<W, const N: usize> AsMut<[u8]> for AlignedBytes<W, N> {
    fn as_mut(&mut self) -> (r: &mut [u8])
        ensures
            r@ == old(self).spec_bytes(),
            final(self).spec_bytes() == final(r)@,
    {
        self.as_bytes_mut()
    }
}

/// A bounded writer over storage that was zeroed at the root.
///
/// Subranges preserve the root's zeroed state and therefore never clear their
/// contents again.
pub struct Prezeroed<'dst> {
    bytes: &'dst mut [u8],
}

impl<'dst> View for Prezeroed<'dst> {
    type V = Seq<u8>;

    closed spec fn view(&self) -> Seq<u8> {
        self.bytes@
    }
}

impl<'dst> Prezeroed<'dst> {
    /// The borrowed storage: what it holds once this writer is released is
    /// `final(self.storage())`.
    pub closed spec fn storage(&self) -> &'dst mut [u8] {
        self.bytes
    }

    /// Once a writer is released, the borrowed storage holds what its view
    /// last showed.
    pub proof fn lemma_released(self)
        requires
            has_resolved(self),
        ensures
            final(self.storage())@ == self@,
    {
    }

    /// Zeros an entire destination exactly once and creates its root writer.
    pub fn new(root: &'dst mut [u8]) -> (r: Self)
        ensures
            r@ == Seq::new(old(root)@.len(), |i: int| 0u8),
            final(r.storage())@ == final(root)@,
    {
        fill_zero(root);
        Prezeroed { bytes: root }
    }

    pub fn len(&self) -> (r: usize)
        ensures
            r as nat == self@.len(),
    {
        self.bytes.len()
    }

    /// Copies `source` to `offset`; bytes outside that range are untouched and
    /// a rejected write changes nothing.
    pub fn write(&mut self, offset: usize, source: &[u8]) -> (r: Result<(), LayoutError>)
        ensures
            match checked_range_spec(old(self)@.len() as usize, offset, source@.len() as usize) {
                Err(e) => r == Err::<(), LayoutError>(e) && final(self)@ == old(self)@,
                Ok(_) => r is Ok && final(self)@ == splice(old(self)@, offset as int, source@),
            },
            final(final(self).storage())@ == final(old(self).storage())@,
    {
        let range = match checked_range(self.bytes.len(), offset, source.len()) {
            Ok(range) => range,
            Err(e) => return Err(e),
        };
        let target = slice_between_mut(self.bytes, range.start, range.end);
        copy_all(target, source);
        Ok(())
    }

    /// Selects a bounded writer over `offset..offset + length` without clearing it.
    pub fn subrange(&mut self, offset: usize, length: usize) -> (r: Result<Prezeroed<'_>, LayoutError>)
        ensures
            match checked_range_spec(old(self)@.len() as usize, offset, length) {
                Err(e) => r == Err::<Prezeroed<'_>, LayoutError>(e) && final(self)@ == old(self)@,
                Ok(_) => r matches Ok(child) && child@ == old(self)@.subrange(
                    offset as int,
                    offset + length,
                ) && final(self)@ == old(self)@.subrange(0, offset as int) + final(child.storage())@
                    + old(self)@.subrange(offset + length, old(self)@.len() as int),
            },
            final(final(self).storage())@ == final(old(self).storage())@,
    {
        let range = match checked_range(self.bytes.len(), offset, length) {
            Ok(range) => range,
            Err(e) => return Err(e),
        };
        Ok(Prezeroed { bytes: slice_between_mut(self.bytes, range.start, range.end) })
    }
}

} // verus!

//! The address at which a checked byte span starts.

use vstd::prelude::*;

use crate::access::slice_address;

verus! {

/// The address of the first byte of a span, taken once from the span itself.
///
/// Its field is private to this module: the only way to obtain one is to take
/// the address of a slice, so a value that a check found aligned is the
/// address of the span that was checked.
#[derive(Clone, Copy)]
pub(crate) struct SpanAddress {
    value: usize,
}

impl SpanAddress {
    /// The address this value records.
    pub(crate) closed spec fn spec_value(self) -> usize {
        self.value
    }

    /// Takes the address of the first byte of `bytes`.
    pub(crate) fn of(bytes: &[u8]) -> (r: SpanAddress) {
        SpanAddress { value: slice_address(bytes) }
    }

    /// The address this value records.
    pub(crate) fn get(&self) -> (r: usize)
        ensures
            r == self.spec_value(),
    {
        self.value
    }
}

} // verus!

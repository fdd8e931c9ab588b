//! Checked fixed-array element selection.

use core::ops::Range;
use vstd::prelude::*;

use crate::error::LayoutError;
use crate::mutation::{checked_range, checked_range_spec, range_pair};

verus! {

/// The offset of element `index` at `stride`, or overflow.
pub open spec fn element_offset_spec(index: usize, stride: usize) -> Result<usize, LayoutError> {
    if index * stride > usize::MAX {
        Err(LayoutError::OffsetOverflow)
    } else {
        Ok((index * stride) as usize)
    }
}

/// The byte range of element `index`: multiplication overflow is reported
/// before the range itself is checked against `available`.
pub open spec fn element_range_spec(
    available: usize,
    index: usize,
    stride: usize,
    element_size: usize,
) -> Result<(usize, usize), LayoutError> {
    match element_offset_spec(index, stride) {
        Err(e) => Err(e),
        Ok(offset) => checked_range_spec(available, offset, element_size),
    }
}

/// Computes one element offset without deciding whether `index` is in bounds.
///
/// Array adapters use this after their own logical index check, allowing them
/// to map an out-of-bounds index to the owning schema error type.
pub fn checked_element_offset(index: usize, stride: usize) -> (r: Result<usize, LayoutError>)
    ensures
        r == element_offset_spec(index, stride),
{
    match index.checked_mul(stride) {
        Some(offset) => Ok(offset),
        None => Err(LayoutError::OffsetOverflow),
    }
}

/// Computes one element's byte range, rejecting multiplication/addition overflow.
pub fn checked_element_range(
    available: usize,
    index: usize,
    stride: usize,
    element_size: usize,
) -> (r:
    Result<Range<usize>, LayoutError>)
    ensures
        range_pair(r) == element_range_spec(available, index, stride, element_size),
{
    let offset = match checked_element_offset(index, stride) {
        Ok(offset) => offset,
        Err(e) => return Err(e),
    };
    checked_range(available, offset, element_size)
}

/// Every in-bounds element of an array whose stride covers its element size
/// occupies its own range: consecutive indices select disjoint, ordered ranges.
pub proof fn lemma_element_ranges_are_disjoint(
    available: usize,
    i: usize,
    j: usize,
    stride: usize,
    element_size: usize,
)
    requires
        i < j,
        element_size <= stride,
        element_range_spec(available, i, stride, element_size) is Ok,
        element_range_spec(available, j, stride, element_size) is Ok,
    ensures
        element_range_spec(available, i, stride, element_size)->Ok_0.1
            <= element_range_spec(available, j, stride, element_size)->Ok_0.0,
{
    assert(i * stride + stride <= j * stride) by (nonlinear_arith)
        requires
            i < j,
    ;
}

} // verus!

verus! {

use core::marker::PhantomData;
use crate::access::{ExclusiveInput, SharedInput};
use crate::__private::{ArrayElementAdapter, OwnerAdapter};
use crate::mutation::slice_between;

/// The bytes of element `i` when elements are `s` bytes apart.
pub open spec fn element_of(bytes: Seq<u8>, i: int, s: int) -> Seq<u8> {
    bytes.subrange(i * s, i * s + s)
}

/// Whether all `n` elements of `s` bytes fit in `bytes` and each is valid.
pub open spec fn proved_elements<A: ArrayElementAdapter>(bytes: Seq<u8>, n: int) -> bool {
    let s = vstd::layout::size_of::<A::Wire>() as int;
    &&& n * s <= bytes.len()
    &&& forall|i: int| 0 <= i < n ==> #[trigger] A::element_valid(i, element_of(bytes, i, s))
}

/// The layout failure, if any, of selecting element `i` of `s` bytes from
/// `len` bytes: offset overflow, then a range past the end.
pub open spec fn element_layout_error(len: usize, i: usize, s: usize) -> Option<LayoutError> {
    match element_offset_spec(i, s) {
        Err(e) => Some(e),
        Ok(offset) => match checked_range_spec(len, offset, s) {
            Err(e) => Some(e),
            Ok(_) => None,
        },
    }
}

/// Whether proving the elements of `bytes` in increasing order stops at
/// element `i` with `error`: every earlier element is valid, and element `i`
/// either cannot be selected (the owner's mapping of that layout failure) or
/// is rejected by the adapter's own proof with `error`.
pub open spec fn element_proof_fails_at<A: ArrayElementAdapter>(
    bytes: Seq<u8>,
    i: int,
    error: <A::Owner as OwnerAdapter>::AccessError,
) -> bool {
    let s = vstd::layout::size_of::<A::Wire>() as int;
    &&& forall|j: int| 0 <= j < i ==> #[trigger] A::element_valid(j, element_of(bytes, j, s))
    &&& match element_layout_error(bytes.len() as usize, i as usize, s as usize) {
        Some(e) => call_ensures(<A::Owner as OwnerAdapter>::access_layout, (e,), error),
        None => !A::element_valid(i, element_of(bytes, i, s)) && exists|element: SharedInput<A::Wire>|
            #![trigger call_ensures(A::prove, (i as usize, element), Err::<(), <A::Owner as OwnerAdapter>::AccessError>(error))]
            element@ == element_of(bytes, i, s) && call_ensures(
                A::prove,
                (i as usize, element),
                Err::<(), <A::Owner as OwnerAdapter>::AccessError>(error),
            ),
    }
}

/// Whether proving the first `n` elements of `bytes` in increasing order
/// fails with `error` at some element.
pub open spec fn element_proof_failed<A: ArrayElementAdapter>(
    bytes: Seq<u8>,
    n: int,
    error: <A::Owner as OwnerAdapter>::AccessError,
) -> bool {
    exists|i: int| 0 <= i < n && #[trigger] element_proof_fails_at::<A>(bytes, i, error)
}

/// Whether the adapter's preflight of `value` at element `i`, whose bytes
/// are `current`, rejected it with `error`.
pub open spec fn preflight_rejected<A: ArrayElementAdapter>(
    i: int,
    current: Seq<u8>,
    value: A::Value,
    error: <A::Owner as OwnerAdapter>::MutationError,
) -> bool {
    exists|element: SharedInput<A::Wire>|
        #![trigger call_ensures(A::preflight, (i as usize, element, &value), Err::<(), <A::Owner as OwnerAdapter>::MutationError>(error))]
        element@ == current && call_ensures(
            A::preflight,
            (i as usize, element, &value),
            Err::<(), <A::Owner as OwnerAdapter>::MutationError>(error),
        )
}

/// Whether preflighting `values` against `bytes` in increasing order stops
/// at element `i` with `error`: every earlier value is accepted and value
/// `i` is rejected by its preflight.
pub open spec fn source_rejected_at<A: ArrayElementAdapter>(
    bytes: Seq<u8>,
    values: Seq<A::Value>,
    i: int,
    error: <A::Owner as OwnerAdapter>::MutationError,
) -> bool {
    let s = vstd::layout::size_of::<A::Wire>() as int;
    &&& forall|j: int| 0 <= j < i ==> #[trigger] A::accepts(j, element_of(bytes, j, s), values[j])
    &&& !A::accepts(i, element_of(bytes, i, s), values[i])
    &&& preflight_rejected::<A>(i, element_of(bytes, i, s), values[i], error)
}

/// Whether preflighting `values` against `bytes` fails with `error` at some
/// element.
pub open spec fn source_rejected<A: ArrayElementAdapter>(
    bytes: Seq<u8>,
    values: Seq<A::Value>,
    error: <A::Owner as OwnerAdapter>::MutationError,
) -> bool {
    exists|i: int| 0 <= i < values.len() && #[trigger] source_rejected_at::<A>(bytes, values, i, error)
}

/// Whether every source value is accepted against the current element.
pub open spec fn accepts_all<A: ArrayElementAdapter>(bytes: Seq<u8>, values: Seq<A::Value>) -> bool {
    let s = vstd::layout::size_of::<A::Wire>() as int;
    forall|i: int| 0 <= i < values.len() ==> #[trigger] A::accepts(i, element_of(bytes, i, s), values[i])
}

/// An element of an array of `n` elements lies within the first `n * s` bytes.
proof fn lemma_element_in_array(i: int, s: int, n: int)
    requires
        0 <= i < n,
        s >= 0,
    ensures
        0 <= i * s,
        i * s + s <= n * s,
{
    assert(0 <= i * s) by (nonlinear_arith)
        requires
            0 <= i,
            s >= 0,
    ;
    assert(i * s + s <= n * s) by (nonlinear_arith)
        requires
            i < n,
            s >= 0,
    ;
}

/// Element ranges of consecutive indices follow each other without overlap.
proof fn lemma_element_bounds(i: int, j: int, s: int, n: int)
    requires
        0 <= i < j < n,
        s >= 0,
    ensures
        i * s + s <= j * s,
        j * s + s <= n * s,
        0 <= i * s,
{
    assert(i * s + s <= j * s) by (nonlinear_arith)
        requires
            i < j,
            s >= 0,
    ;
    assert(j * s + s <= n * s) by (nonlinear_arith)
        requires
            j < n,
            s >= 0,
    ;
    assert(0 <= i * s) by (nonlinear_arith)
        requires
            0 <= i,
            s >= 0,
    ;
}

/// Writing `mid` over `a..b` leaves every range outside `a..b` unchanged, and
/// the range `a..b` then holds `mid`.
proof fn lemma_splice_ranges(cur: Seq<u8>, mid: Seq<u8>, a: int, b: int, lo: int, hi: int)
    requires
        0 <= a <= b <= cur.len(),
        mid.len() == b - a,
        0 <= lo <= hi <= cur.len(),
    ensures
        hi <= a
            || lo >= b ==> (cur.subrange(0, a) + mid + cur.subrange(b, cur.len() as int)).subrange(
            lo,
            hi,
        ) == cur.subrange(lo, hi),
        (cur.subrange(0, a) + mid + cur.subrange(b, cur.len() as int)).subrange(a, b) == mid,
        (cur.subrange(0, a) + mid + cur.subrange(b, cur.len() as int)).len() == cur.len(),
{
    let spliced = cur.subrange(0, a) + mid + cur.subrange(b, cur.len() as int);
    if hi <= a || lo >= b {
        assert(spliced.subrange(lo, hi) =~= cur.subrange(lo, hi));
    }
    assert(spliced.subrange(a, b) =~= mid);
}

/// Replacing element `index` of an array of `n` elements of `s` bytes with
/// `mid` is seen by every later read: element `index` is `mid`, and every
/// other element keeps its bytes.
pub proof fn lemma_set_touches_only_its_element(
    before: Seq<u8>,
    mid: Seq<u8>,
    index: int,
    other: int,
    s: int,
    n: int,
)
    requires
        0 <= index < n,
        0 <= other < n,
        s >= 0,
        n * s <= before.len(),
        mid.len() == s,
    ensures
        ({
            let after = before.subrange(0, index * s) + mid + before.subrange(
                index * s + s,
                before.len() as int,
            );
            &&& after.len() == before.len()
            &&& element_of(after, index, s) == mid
            &&& other != index ==> element_of(after, other, s) == element_of(before, other, s)
        }),
{
    lemma_element_in_array(index, s, n);
    lemma_element_in_array(other, s, n);
    lemma_splice_ranges(before, mid, index * s, index * s + s, index * s, index * s + s);
    if other < index {
        lemma_element_bounds(other, index, s, n);
        lemma_splice_ranges(before, mid, index * s, index * s + s, other * s, other * s + s);
    } else if other > index {
        lemma_element_bounds(index, other, s, n);
        lemma_splice_ranges(before, mid, index * s, index * s + s, other * s, other * s + s);
    }
}

/// The bytes after every element `i` of `bytes` is committed from
/// `values[i]`: elements are replaced in place and trailing bytes are kept.
pub open spec fn copied_all<A: ArrayElementAdapter>(
    before: Seq<u8>,
    after: Seq<u8>,
    values: Seq<A::Value>,
) -> bool {
    let s = vstd::layout::size_of::<A::Wire>() as int;
    &&& after.len() == before.len()
    &&& forall|i: int|
        0 <= i < values.len() ==> #[trigger] element_of(after, i, s) == A::committed(
            i,
            element_of(before, i, s),
            values[i],
        )
    &&& forall|k: int| values.len() * s <= k < before.len() ==> after[k] == before[k]
}

/// An O(1)-state exclusive capability for one fully proved fixed wire array.
///
/// It never yields mutable storage. Full-array transfer preflights every
/// source element before its first write.
pub struct ArrayMut<'view, LogicalT, const N: usize, Adapter: ArrayElementAdapter> {
    input: ExclusiveInput<'view, [Adapter::Wire; N]>,
    token: Adapter::Token,
    marker: PhantomData<(LogicalT, Adapter)>,
}

impl<'view, LogicalT, const N: usize, Adapter: ArrayElementAdapter> View for ArrayMut<
    'view,
    LogicalT,
    N,
    Adapter,
> {
    type V = Seq<u8>;

    closed spec fn view(&self) -> Seq<u8> {
        self.input@
    }
}

impl<'view, LogicalT, const N: usize, Adapter: ArrayElementAdapter> ArrayMut<'view, LogicalT, N, Adapter> {
    /// The borrowed storage: what it holds once this capability is released
    /// is `final(self.storage())`.
    pub closed spec fn storage(&self) -> &'view mut [u8] {
        self.input.storage()
    }

    /// Once the capability is released, the borrowed storage holds what its
    /// view last showed.
    pub proof fn lemma_released(self)
        requires
            has_resolved(self),
        ensures
            final(self.storage())@ == self@,
    {
        self.input.lemma_released();
    }

    /// Whether every element of this array is valid; every array capability
    /// is built by a successful proof and its methods keep this true.
    pub closed spec fn elements_valid(&self) -> bool {
        proved_elements::<Adapter>(self@, N as int)
    }

    /// Validates every exact element in increasing order before constructing
    /// an exclusive array capability.
    #[verifier::spinoff_prover]
    pub fn prove(
        input: ExclusiveInput<'view,
        [Adapter::Wire; N]>,
        token: Adapter::Token,
    ) -> (r: Result<
        Self,
        <Adapter::Owner as OwnerAdapter>::AccessError,
    >)
        ensures
            r is Ok <==> proved_elements::<Adapter>(input@, N as int),
            r matches Ok(array) ==> array@ == input@ && array.elements_valid(),
            r matches Ok(array) ==> array.storage() == input.storage(),
            r matches Err(error) ==> element_proof_failed::<Adapter>(input@, N as int, error),
            r is Err ==> final(input.storage())@ == input@,
    {
        vstd::layout::layout_for_type_is_valid::<Adapter::Wire>();
        let s = core::mem::size_of::<Adapter::Wire>();
        let ghost bytes = input@;
        let len = input.len();
        let mut index: usize = 0;
        while index < N
            invariant
                bytes == input@,
                len == bytes.len(),
                s as nat == vstd::layout::size_of::<Adapter::Wire>(),
                index <= N,
                index * s <= len,
                forall|i: int| 0 <= i < index ==> #[trigger] Adapter::element_valid(i, element_of(bytes, i, s as int)),
            decreases N - index,
        {
            let offset = match checked_element_offset(index, s) {
                Ok(offset) => offset,
                Err(e) => {
                    proof {
                        assert(index * s <= N * s) by (nonlinear_arith)
                            requires
                                index <= N,
                        ;
                    }
                    let error = <Adapter::Owner as OwnerAdapter>::access_layout(e);
                    assert(element_proof_fails_at::<Adapter>(input@, index as int, error));
                    assert(element_proof_failed::<Adapter>(input@, N as int, error));
                    proof {
                        input.lemma_released();
                    }
                    return Err(error);
                },
            };
            match checked_range(len, offset, s) {
                Ok(_) => {},
                Err(e) => {
                    proof {
                        assert(index * s + s <= N * s) by (nonlinear_arith)
                            requires
                                index < N,
                        ;
                    }
                    let error = <Adapter::Owner as OwnerAdapter>::access_layout(e);
                    assert(element_proof_fails_at::<Adapter>(input@, index as int, error));
                    assert(element_proof_failed::<Adapter>(input@, N as int, error));
                    proof {
                        input.lemma_released();
                    }
                    return Err(error);
                },
            }
            let shared = input.shared();
            let element = SharedInput::<Adapter::Wire>::selected(
                slice_between(shared.bytes_of(), offset, offset + s),
            );
            assert(element@ == element_of(bytes, index as int, s as int));
            match Adapter::prove(index, element) {
                Ok(()) => {},
                Err(e) => {
                    assert(!Adapter::element_valid(
                        index as int,
                        element_of(bytes, index as int, s as int),
                    ));
                    assert(call_ensures(
                        Adapter::prove,
                        (index, element),
                        Err::<(), <Adapter::Owner as OwnerAdapter>::AccessError>(e),
                    ));
                    assert(element_proof_fails_at::<Adapter>(input@, index as int, e));
                    assert(element_proof_failed::<Adapter>(input@, N as int, e));
                    proof {
                        input.lemma_released();
                    }
                    return Err(e);
                },
            }
            assert((index + 1) * s == index * s + s) by (nonlinear_arith);
            index += 1;
        }
        proof {
            assert(N * s <= len);
        }
        Ok(ArrayMut { input, token, marker: PhantomData })
    }

    /// Returns one logical read observation or `None` when `index` is outside `N`.
    pub fn get(&self, index: usize) -> (r: Option<Adapter::Read<'_>>)
        requires
            self.elements_valid(),
        ensures
            r is Some <==> index < N,
            r matches Some(observation) ==> Adapter::reads(
                index as int,
                element_of(self@, index as int, vstd::layout::size_of::<Adapter::Wire>() as int),
                observation,
            ),
    {
        if index >= N {
            return None;
        }
        vstd::layout::layout_for_type_is_valid::<Adapter::Wire>();
        let s = core::mem::size_of::<Adapter::Wire>();
        proof {
            lemma_element_in_array(index as int, s as int, N as int);
            assert(Adapter::element_valid(index as int, element_of(self@, index as int, s as int)));
        }
        let _ = self.input.len();
        let offset = index * s;
        let element = SharedInput::<Adapter::Wire>::selected(
            slice_between(self.input.shared().bytes_of(), offset, offset + s),
        );
        match Adapter::read(index, element) {
            Ok(value) => Some(value),
            Err(_) => None,
        }
    }

    /// Returns the mutation capability of one element, or `None` when
    /// `index` is outside `N`.
    pub fn get_mut(&mut self, index: usize) -> (r: Option<Adapter::Mut<'_>>)
        requires
            old(self).elements_valid(),
        ensures
            r is Some <==> index < N,
            final(final(self).storage())@ == final(old(self).storage())@,
    {
        if index >= N {
            return None;
        }
        vstd::layout::layout_for_type_is_valid::<Adapter::Wire>();
        let s = core::mem::size_of::<Adapter::Wire>();
        proof {
            lemma_element_in_array(index as int, s as int, N as int);
            assert(Adapter::element_valid(index as int, element_of(self@, index as int, s as int)));
        }
        let _ = self.input.len();
        let offset = index * s;
        let token = self.token;
        let element = ExclusiveInput::<Adapter::Wire>::selected_mut(
            self.input.window_mut(offset, offset + s),
        );
        match Adapter::make_mut(index, element, token) {
            Ok(value) => Some(value),
            Err(_) => None,
        }
    }

    /// Iterates logical elements in increasing index order through a shared
    /// reborrow of this array.
    pub fn iter(&self) -> (r: ArrayMutIter<'_, LogicalT, N, Adapter>)
        requires
            self.elements_valid(),
        ensures
            r.wf(),
            r.position() == 0,
            r@ == self@,
    {
        ArrayMutIter { input: self.input.shared(), next: 0, marker: PhantomData }
    }

    /// Materializes every logical read observation in index order.
    pub fn copy_into(&self) -> (r: Vec<Adapter::Read<'_>>)
        requires
            self.elements_valid(),
        ensures
            r@.len() == N,
            forall|i: int|
                0 <= i < N ==> #[trigger] Adapter::reads(
                    i,
                    element_of(self@, i, vstd::layout::size_of::<Adapter::Wire>() as int),
                    r@[i],
                ),
    {
        let mut elements: Vec<Adapter::Read<'_>> = Vec::new();
        let mut index: usize = 0;
        while index < N
            invariant
                self.elements_valid(),
                index <= N,
                elements@.len() == index,
                forall|i: int|
                    0 <= i < index ==> #[trigger] Adapter::reads(
                        i,
                        element_of(self@, i, vstd::layout::size_of::<Adapter::Wire>() as int),
                        elements@[i],
                    ),
            decreases N - index,
        {
            match self.get(index) {
                Some(element) => elements.push(element),
                None => {},
            }
            index += 1;
        }
        elements
    }

    /// Replaces one element after bounds and source preflight; a rejected
    /// replacement leaves the array unchanged.
    pub fn set(&mut self, index: usize, value: Adapter::Value) -> (r: Result<
        (),
        <Adapter::Owner as OwnerAdapter>::MutationError,
    >)
        requires
            old(self).elements_valid(),
        ensures
            final(self).elements_valid(),
            final(final(self).storage())@ == final(old(self).storage())@,
            index >= N ==> (r matches Err(error) && call_ensures(Adapter::index_error, (index, N), error)),
            index < N && !Adapter::accepts(
                index as int,
                element_of(old(self)@, index as int, vstd::layout::size_of::<Adapter::Wire>() as int),
                value,
            ) ==> (r matches Err(error) && preflight_rejected::<Adapter>(
                index as int,
                element_of(old(self)@, index as int, vstd::layout::size_of::<Adapter::Wire>() as int),
                value,
                error,
            )),
            ({
                let s = vstd::layout::size_of::<Adapter::Wire>() as int;
                let current = element_of(old(self)@, index as int, s);
                if index >= N || !Adapter::accepts(index as int, current, value) {
                    r is Err && final(self)@ == old(self)@
                } else {
                    r is Ok
                        && final(self)@ == old(self)@.subrange(0, index * s) + Adapter::committed(
                        index as int,
                        current,
                        value,
                    ) + old(self)@.subrange(index * s + s, old(self)@.len() as int)
                }
            }),
    {
        if index >= N {
            return Err(Adapter::index_error(index, N));
        }
        vstd::layout::layout_for_type_is_valid::<Adapter::Wire>();
        let s = core::mem::size_of::<Adapter::Wire>();
        let ghost before = self@;
        proof {
            lemma_element_in_array(index as int, s as int, N as int);
            assert(Adapter::element_valid(
                index as int,
                element_of(before, index as int, s as int),
            ));
        }
        let _ = self.input.len();
        let offset = index * s;
        let element = SharedInput::<Adapter::Wire>::selected(
            slice_between(self.input.shared().bytes_of(), offset, offset + s),
        );
        match Adapter::preflight(index, element, &value) {
            Ok(()) => {},
            Err(e) => {
                assert(call_ensures(
                    Adapter::preflight,
                    (index, element, &value),
                    Err::<(), <Adapter::Owner as OwnerAdapter>::MutationError>(e),
                ));
                return Err(e);
            },
        }
        let token = self.token;
        let destination = self.input.window_mut(offset, offset + s);
        Adapter::commit(index, destination, &value, token);
        proof {
            let mid = Adapter::committed(
                index as int,
                element_of(before, index as int, s as int),
                value,
            );
            assert(mid.len() == s);
            assert(
                self@ == before.subrange(0, offset as int)
                    + mid
                    + before.subrange(offset + s, before.len() as int)
            );
            assert(Adapter::element_valid(index as int, mid));
            assert forall|i: int| 0 <= i < N implies #[trigger] Adapter::element_valid(
                i,
                element_of(self@, i, s as int),
            ) by {
                lemma_splice_ranges(
                    before,
                    mid,
                    offset as int,
                    offset + s,
                    offset as int,
                    offset + s,
                );
                if i < index {
                    lemma_element_bounds(i, index as int, s as int, N as int);
                    lemma_splice_ranges(before, mid, offset as int, offset + s, i * s, i * s + s);
                    assert(Adapter::element_valid(i, element_of(before, i, s as int)));
                } else if i > index {
                    lemma_element_bounds(index as int, i, s as int, N as int);
                    lemma_splice_ranges(before, mid, offset as int, offset + s, i * s, i * s + s);
                    assert(Adapter::element_valid(i, element_of(before, i, s as int)));
                } else {
                    assert(element_of(self@, i, s as int) == mid);
                }
            }
        }
        Ok(())
    }

    /// Replaces exactly `N` elements with two-pass atomicity.
    ///
    /// The source length and every source value are checked in increasing
    /// index order before any element is written; a rejected transfer leaves
    /// the array unchanged. Commit then proceeds in increasing index order.
    pub fn copy_from(&mut self, values: &[Adapter::Value]) -> (r: Result<
        (),
        <Adapter::Owner as OwnerAdapter>::MutationError,
    >)
        requires
            old(self).elements_valid(),
        ensures
            final(self).elements_valid(),
            final(final(self).storage())@ == final(old(self).storage())@,
            values@.len() != N ==> (r matches Err(error) && call_ensures(
                Adapter::length_error,
                (values@.len() as usize, N),
                error,
            )),
            values@.len() == N && !accepts_all::<Adapter>(old(self)@, values@) ==> (r matches Err(
                error,
            ) && source_rejected::<Adapter>(old(self)@, values@, error)),
            values@.len() != N ==> r is Err && final(self)@ == old(self)@,
            values@.len() == N && !accepts_all::<Adapter>(old(self)@, values@) ==> r is Err
                && final(self)@ == old(self)@,
            values@.len() == N && accepts_all::<Adapter>(old(self)@, values@) ==> r is Ok
                && copied_all::<Adapter>(old(self)@, final(self)@, values@),
    {
        if values.len() != N {
            return Err(Adapter::length_error(values.len(), N));
        }
        vstd::layout::layout_for_type_is_valid::<Adapter::Wire>();
        let s = core::mem::size_of::<Adapter::Wire>();
        let ghost before = self@;
        let len = self.input.len();
        let mut index: usize = 0;
        while index < N
            invariant
                before == self@,
                len == before.len(),
                values@.len() == N,
                s as nat == vstd::layout::size_of::<Adapter::Wire>(),
                proved_elements::<Adapter>(before, N as int),
                index <= N,
                forall|i: int| 0 <= i < index ==> #[trigger] Adapter::accepts(
                    i,
                    element_of(before, i, s as int),
                    values@[i],
                ),
            decreases N - index,
        {
            proof {
                lemma_element_in_array(index as int, s as int, N as int);
            }
            let offset = index * s;
            let element = SharedInput::<Adapter::Wire>::selected(
                slice_between(self.input.shared().bytes_of(), offset, offset + s),
            );
            match Adapter::preflight(index, element, &values[index]) {
                Ok(()) => {},
                Err(e) => {
                    assert(!Adapter::accepts(
                        index as int,
                        element_of(before, index as int, s as int),
                        values@[index as int],
                    ));
                    assert(call_ensures(
                        Adapter::preflight,
                        (index, element, &values@[index as int]),
                        Err::<(), <Adapter::Owner as OwnerAdapter>::MutationError>(e),
                    ));
                    assert(source_rejected_at::<Adapter>(before, values@, index as int, e));
                    assert(source_rejected::<Adapter>(before, values@, e));
                    return Err(e);
                },
            }
            index += 1;
        }
        let token = self.token;
        let mut index: usize = 0;
        while index < N
            invariant
                len == before.len(),
                self@.len() == before.len(),
                values@.len() == N,
                s as nat == vstd::layout::size_of::<Adapter::Wire>(),
                proved_elements::<Adapter>(before, N as int),
                accepts_all::<Adapter>(before, values@),
                index <= N,
                forall|i: int| 0 <= i < N ==> #[trigger] Adapter::element_valid(
                    i,
                    element_of(self@, i, s as int),
                ),
                forall|i: int| 0 <= i < index ==> #[trigger] element_of(self@, i, s as int)
                    == Adapter::committed(i, element_of(before, i, s as int), values@[i]),
                forall|i: int| index <= i < N ==> #[trigger] element_of(self@, i, s as int)
                    == element_of(before, i, s as int),
                forall|k: int| N * s <= k < before.len() ==> self@[k] == before[k],
                final(self.storage())@ == final(old(self).storage())@,
            decreases N - index,
        {
            let ghost current = self@;
            proof {
                lemma_element_in_array(index as int, s as int, N as int);
                assert(element_of(current, index as int, s as int) == element_of(before, index as int, s as int));
                assert(Adapter::accepts(
                    index as int,
                    element_of(before, index as int, s as int),
                    values@[index as int],
                ));
                assert(Adapter::element_valid(
                    index as int,
                    element_of(current, index as int, s as int),
                ));
            }
            let offset = index * s;
            let destination = self.input.window_mut(offset, offset + s);
            Adapter::commit(index, destination, &values[index], token);
            proof {
                let mid = Adapter::committed(
                    index as int,
                    element_of(before, index as int, s as int),
                    values@[index as int],
                );
                lemma_splice_ranges(
                    current,
                    mid,
                    offset as int,
                    offset + s,
                    offset as int,
                    offset + s,
                );
                assert forall|i: int| 0 <= i < N
                    && i != index implies #[trigger] element_of(self@, i, s as int)
                    == element_of(current, i, s as int) by {
                    if i < index {
                        lemma_element_bounds(i, index as int, s as int, N as int);
                    } else {
                        lemma_element_bounds(index as int, i, s as int, N as int);
                    }
                    lemma_splice_ranges(current, mid, offset as int, offset + s, i * s, i * s + s);
                }
                assert forall|i: int| 0 <= i < N implies #[trigger] Adapter::element_valid(
                    i,
                    element_of(self@, i, s as int),
                ) by {
                    if i != index {
                        assert(element_of(self@, i, s as int) == element_of(current, i, s as int));
                    }
                }
                assert forall|k: int| N * s <= k < before.len() implies self@[k] == before[k] by {
                    assert(self@[k] == current[k]);
                }
            }
            index += 1;
        }
        Ok(())
    }
}


/// Marker used only as the default adapter parameter for array views.
///
/// Generated accessors always supply their concrete adapter. This one
/// accepts nothing: no element is valid and no source is accepted. Its
/// private field keeps it from being constructed.
pub struct UnspecifiedArrayAdapter {
    _private: (),
}

/// The error of [`UnspecifiedArrayAdapter`].
#[derive(Debug)]
pub struct UnspecifiedArrayError;

impl UnspecifiedArrayError {
    /// The stable human-readable message of this error.
    pub fn message(&self) -> (r: &'static str)
        ensures
            r@ == "unspecified array adapter"@,
    {
        "unspecified array adapter"
    }
}

impl crate::error::SchemaError for UnspecifiedArrayError {
    fn kind(&self) -> (r: crate::error::ErrorKind)
        ensures
            r == crate::error::ErrorKind::Layout,
    {
        crate::error::ErrorKind::Layout
    }

    fn schema(&self) -> (r: &'static str)
        ensures
            r@ == "unspecified array adapter"@,
    {
        "unspecified array adapter"
    }

    fn segment(&self) -> (r: Option<crate::error::ErrorPathSegment>)
        ensures
            r is None,
    {
        None
    }
}

/// The owner of [`UnspecifiedArrayAdapter`]: every failure is the same error.
pub struct UnspecifiedArrayOwner;

impl OwnerAdapter for UnspecifiedArrayOwner {
    type AccessError = UnspecifiedArrayError;
    type MutationError = UnspecifiedArrayError;

    fn access_layout(error: LayoutError) -> UnspecifiedArrayError {
        UnspecifiedArrayError
    }

    fn mutation_layout(error: LayoutError) -> UnspecifiedArrayError {
        UnspecifiedArrayError
    }
}

/// The access token of [`UnspecifiedArrayAdapter`].
#[derive(Clone, Copy)]
pub struct UnspecifiedArrayToken;

impl crate::__private::InputAccess for UnspecifiedArrayAdapter {
    type Token = UnspecifiedArrayToken;
}

impl ArrayElementAdapter for UnspecifiedArrayAdapter {
    type Wire = u8;
    type Owner = UnspecifiedArrayOwner;
    type Read<'wire> = ();
    type Value = ();
    type Mut<'wire> = ();

    open spec fn element_valid(index: int, bytes: Seq<u8>) -> bool {
        false
    }

    open spec fn accepts(index: int, bytes: Seq<u8>, value: ()) -> bool {
        false
    }

    open spec fn committed(index: int, bytes: Seq<u8>, value: ()) -> Seq<u8> {
        bytes
    }

    open spec fn reads<'wire>(index: int, bytes: Seq<u8>, observation: ()) -> bool {
        false
    }

    fn prove(index: usize, input: SharedInput<'_, u8>) -> (r: Result<(), UnspecifiedArrayError>) {
        Err(UnspecifiedArrayError)
    }

    fn read<'wire>(
        index: usize,
        input: SharedInput<'wire,
        u8>,
    ) -> (r: Result<(), UnspecifiedArrayError>) {
        Err(UnspecifiedArrayError)
    }

    fn preflight(index: usize, input: SharedInput<'_, u8>, value: &()) -> (r: Result<
        (),
        UnspecifiedArrayError,
    >) {
        Err(UnspecifiedArrayError)
    }

    fn commit(index: usize, destination: &mut [u8], value: &(), token: UnspecifiedArrayToken) {
    }

    fn make_mut<'wire>(
        index: usize,
        input: ExclusiveInput<'wire,
        u8>,
        token: UnspecifiedArrayToken,
    ) -> (r:
        Result<(), UnspecifiedArrayError>)
        ensures
            r is Err,
    {
        Err(UnspecifiedArrayError)
    }

    fn index_error(index: usize, len: usize) -> UnspecifiedArrayError {
        UnspecifiedArrayError
    }

    fn length_error(actual: usize, expected: usize) -> UnspecifiedArrayError {
        UnspecifiedArrayError
    }
}

/// An O(1)-state, zero-copy view of a fully proved fixed wire array.
///
/// It exposes only logical elements: never wire values, byte slices, or a
/// mutable element location.
pub struct ArrayRef<'wire, LogicalT, const N: usize, Adapter: ArrayElementAdapter> {
    input: SharedInput<'wire, [Adapter::Wire; N]>,
    marker: PhantomData<(LogicalT, Adapter)>,
}

impl<'wire, LogicalT, const N: usize, Adapter: ArrayElementAdapter> Clone for ArrayRef<
    'wire,
    LogicalT,
    N,
    Adapter,
> {
    fn clone(&self) -> (r: Self)
        ensures
            r == *self,
    {
        *self
    }
}

impl<'wire, LogicalT, const N: usize, Adapter: ArrayElementAdapter> Copy for ArrayRef<
    'wire,
    LogicalT,
    N,
    Adapter,
> {

}

impl<'wire, LogicalT, const N: usize, Adapter: ArrayElementAdapter> View for ArrayRef<
    'wire,
    LogicalT,
    N,
    Adapter,
> {
    type V = Seq<u8>;

    closed spec fn view(&self) -> Seq<u8> {
        self.input@
    }
}

impl<'wire, LogicalT, const N: usize, Adapter: ArrayElementAdapter> ArrayRef<'wire, LogicalT, N, Adapter> {
    /// Whether every element of this array is valid; every view is built by a
    /// successful proof.
    pub closed spec fn elements_valid(&self) -> bool {
        proved_elements::<Adapter>(self@, N as int)
    }

    /// Validates every element in increasing index order before the view is
    /// constructed.
    #[verifier::spinoff_prover]
    pub fn prove(input: SharedInput<'wire, [Adapter::Wire; N]>) -> (r: Result<
        Self,
        <Adapter::Owner as OwnerAdapter>::AccessError,
    >)
        ensures
            r is Ok <==> proved_elements::<Adapter>(input@, N as int),
            r matches Ok(view) ==> view@ == input@ && view.elements_valid(),
            r matches Err(error) ==> element_proof_failed::<Adapter>(input@, N as int, error),
    {
        vstd::layout::layout_for_type_is_valid::<Adapter::Wire>();
        let s = core::mem::size_of::<Adapter::Wire>();
        let bytes = input.bytes_of();
        let len = bytes.len();
        let mut index: usize = 0;
        while index < N
            invariant
                bytes@ == input@,
                len == bytes@.len(),
                s as nat == vstd::layout::size_of::<Adapter::Wire>(),
                index <= N,
                index * s <= len,
                forall|i: int| 0 <= i < index ==> #[trigger] Adapter::element_valid(i, element_of(bytes@, i, s as int)),
            decreases N - index,
        {
            let offset = match checked_element_offset(index, s) {
                Ok(offset) => offset,
                Err(e) => {
                    proof {
                        assert(index * s <= N * s) by (nonlinear_arith)
                            requires
                                index <= N,
                        ;
                    }
                    let error = <Adapter::Owner as OwnerAdapter>::access_layout(e);
                    assert(element_proof_fails_at::<Adapter>(input@, index as int, error));
                    assert(element_proof_failed::<Adapter>(input@, N as int, error));
                    return Err(error);
                },
            };
            match checked_range(len, offset, s) {
                Ok(_) => {},
                Err(e) => {
                    proof {
                        assert(index * s + s <= N * s) by (nonlinear_arith)
                            requires
                                index < N,
                        ;
                    }
                    let error = <Adapter::Owner as OwnerAdapter>::access_layout(e);
                    assert(element_proof_fails_at::<Adapter>(input@, index as int, error));
                    assert(element_proof_failed::<Adapter>(input@, N as int, error));
                    return Err(error);
                },
            }
            let element = SharedInput::<Adapter::Wire>::selected(slice_between(bytes, offset, offset + s));
            assert(element@ == element_of(bytes@, index as int, s as int));
            match Adapter::prove(index, element) {
                Ok(()) => {},
                Err(e) => {
                    assert(!Adapter::element_valid(
                        index as int,
                        element_of(bytes@, index as int, s as int),
                    ));
                    assert(call_ensures(
                        Adapter::prove,
                        (index, element),
                        Err::<(), <Adapter::Owner as OwnerAdapter>::AccessError>(e),
                    ));
                    assert(element_proof_fails_at::<Adapter>(input@, index as int, e));
                    assert(element_proof_failed::<Adapter>(input@, N as int, e));
                    return Err(e);
                },
            }
            assert((index + 1) * s == index * s + s) by (nonlinear_arith);
            index += 1;
        }
        Ok(ArrayRef { input, marker: PhantomData })
    }

    /// Returns one logical element or `None` when `index` is outside `N`.
    pub fn get(&self, index: usize) -> (r: Option<Adapter::Read<'wire>>)
        requires
            self.elements_valid(),
        ensures
            r is Some <==> index < N,
            r matches Some(observation) ==> Adapter::reads(
                index as int,
                element_of(self@, index as int, vstd::layout::size_of::<Adapter::Wire>() as int),
                observation,
            ),
    {
        if index >= N {
            return None;
        }
        vstd::layout::layout_for_type_is_valid::<Adapter::Wire>();
        let s = core::mem::size_of::<Adapter::Wire>();
        proof {
            lemma_element_in_array(index as int, s as int, N as int);
            assert(Adapter::element_valid(index as int, element_of(self@, index as int, s as int)));
        }
        let bytes = self.input.bytes_of();
        let _ = bytes.len();
        let offset = index * s;
        let element = SharedInput::<Adapter::Wire>::selected(slice_between(bytes, offset, offset + s));
        match Adapter::read(index, element) {
            Ok(value) => Some(value),
            Err(_) => None,
        }
    }

    /// Iterates logical elements in increasing index order.
    pub fn iter(&self) -> (r: ArrayRefIter<'wire, LogicalT, N, Adapter>)
        requires
            self.elements_valid(),
        ensures
            r.wf(),
            r.position() == 0,
            r@ == self@,
    {
        ArrayRefIter { view: *self, next: 0 }
    }

    /// Materializes every logical element in index order.
    pub fn copy_into(&self) -> (r: Vec<Adapter::Read<'wire>>)
        requires
            self.elements_valid(),
        ensures
            r@.len() == N,
            forall|i: int|
                0 <= i < N ==> #[trigger] Adapter::reads(
                    i,
                    element_of(self@, i, vstd::layout::size_of::<Adapter::Wire>() as int),
                    r@[i],
                ),
    {
        let mut elements: Vec<Adapter::Read<'wire>> = Vec::new();
        let mut index: usize = 0;
        while index < N
            invariant
                self.elements_valid(),
                index <= N,
                elements@.len() == index,
                forall|i: int|
                    0 <= i < index ==> #[trigger] Adapter::reads(
                        i,
                        element_of(self@, i, vstd::layout::size_of::<Adapter::Wire>() as int),
                        elements@[i],
                    ),
            decreases N - index,
        {
            match self.get(index) {
                Some(element) => elements.push(element),
                None => {},
            }
            index += 1;
        }
        elements
    }
}

/// Exact-size increasing iterator returned by [`ArrayRef::iter`].
pub struct ArrayRefIter<'wire, LogicalT, const N: usize, Adapter: ArrayElementAdapter> {
    view: ArrayRef<'wire, LogicalT, N, Adapter>,
    next: usize,
}

impl<'wire, LogicalT, const N: usize, Adapter: ArrayElementAdapter> View for ArrayRefIter<
    'wire,
    LogicalT,
    N,
    Adapter,
> {
    type V = Seq<u8>;

    /// The bytes of the iterated array.
    closed spec fn view(&self) -> Seq<u8> {
        self.view@
    }
}

impl<'wire, LogicalT, const N: usize, Adapter: ArrayElementAdapter> ArrayRefIter<'wire, LogicalT, N, Adapter> {
    /// The index of the next element.
    pub closed spec fn position(&self) -> nat {
        self.next as nat
    }

    /// Whether the iterated array is proved and the position within it.
    pub closed spec fn wf(&self) -> bool {
        self.view.elements_valid() && self.next <= N
    }

    /// Returns the next element in increasing index order, or `None` once all
    /// `N` were returned.
    pub fn next(&mut self) -> (r: Option<Adapter::Read<'wire>>)
        requires
            old(self).wf(),
        ensures
            final(self).wf(),
            old(self).position() == N ==> r is None && final(self).position() == N,
            old(self).position() < N ==> r is Some
                && final(self).position() == old(self).position() + 1,
            final(self)@ == old(self)@,
            r matches Some(observation) ==> Adapter::reads(
                old(self).position() as int,
                element_of(
                    old(self)@,
                    old(self).position() as int,
                    vstd::layout::size_of::<Adapter::Wire>() as int,
                ),
                observation,
            ),
    {
        if self.next == N {
            return None;
        }
        let index = self.next;
        self.next = index + 1;
        self.view.get(index)
    }

    /// The exact number of elements left, as lower and upper bound.
    pub fn size_hint(&self) -> (r: (usize, Option<usize>))
        requires
            self.wf(),
        ensures
            r.0 == N - self.position(),
            r.1 == Some((N - self.position()) as usize),
    {
        let remaining = N - self.next;
        (remaining, Some(remaining))
    }
}

/// Exact-size increasing iterator returned by [`ArrayMut::iter`].
pub struct ArrayMutIter<'view, LogicalT, const N: usize, Adapter: ArrayElementAdapter> {
    input: SharedInput<'view, [Adapter::Wire; N]>,
    next: usize,
    marker: PhantomData<(LogicalT, Adapter)>,
}

impl<'view, LogicalT, const N: usize, Adapter: ArrayElementAdapter> View for ArrayMutIter<
    'view,
    LogicalT,
    N,
    Adapter,
> {
    type V = Seq<u8>;

    /// The bytes of the iterated array.
    closed spec fn view(&self) -> Seq<u8> {
        self.input@
    }
}

impl<'view, LogicalT, const N: usize, Adapter: ArrayElementAdapter> ArrayMutIter<'view, LogicalT, N, Adapter> {
    /// The index of the next element.
    pub closed spec fn position(&self) -> nat {
        self.next as nat
    }

    /// Whether the iterated array is proved and the position within it.
    pub closed spec fn wf(&self) -> bool {
        proved_elements::<Adapter>(self.input@, N as int) && self.next <= N
    }

    /// Returns the next element in increasing index order, or `None` once all
    /// `N` were returned.
    pub fn next(&mut self) -> (r: Option<Adapter::Read<'view>>)
        requires
            old(self).wf(),
        ensures
            final(self).wf(),
            old(self).position() == N ==> r is None && final(self).position() == N,
            old(self).position() < N ==> r is Some
                && final(self).position() == old(self).position() + 1,
            final(self)@ == old(self)@,
            r matches Some(observation) ==> Adapter::reads(
                old(self).position() as int,
                element_of(
                    old(self)@,
                    old(self).position() as int,
                    vstd::layout::size_of::<Adapter::Wire>() as int,
                ),
                observation,
            ),
    {
        if self.next == N {
            return None;
        }
        let index = self.next;
        self.next = index + 1;
        vstd::layout::layout_for_type_is_valid::<Adapter::Wire>();
        let s = core::mem::size_of::<Adapter::Wire>();
        proof {
            lemma_element_in_array(index as int, s as int, N as int);
            assert(Adapter::element_valid(
                index as int,
                element_of(self.input@, index as int, s as int),
            ));
        }
        let bytes = self.input.bytes_of();
        let _ = bytes.len();
        let offset = index * s;
        let element = SharedInput::<Adapter::Wire>::selected(slice_between(bytes, offset, offset + s));
        match Adapter::read(index, element) {
            Ok(value) => Some(value),
            Err(_) => vstd::pervasive::unreached(),
        }
    }

    /// The exact number of elements left, as lower and upper bound.
    pub fn size_hint(&self) -> (r: (usize, Option<usize>))
        requires
            self.wf(),
        ensures
            r.0 == N - self.position(),
            r.1 == Some((N - self.position()) as usize),
    {
        let remaining = N - self.next;
        (remaining, Some(remaining))
    }
}

} // verus!

//! Constrained field mutation capabilities.
//!
//! Every handle owns only an exclusive borrow of one already proved field. A
//! `set` completes all source validation before its first write, so a
//! rejected write leaves the field unchanged.

use core::marker::PhantomData;
use vstd::prelude::*;

use crate::__private::{
    FixedBytesMutationAdapter, OptionFieldAdapter, OwnerAdapter, ScalarMutationAdapter,
    StringMutationAdapter,
};
use crate::access::{ExclusiveInput, SharedInput};
use crate::error::LayoutError;
use crate::mutation::{checked_range, checked_range_spec, slice_between};

verus! {

/// A short exclusive mutation capability for one scalar, Boolean, or scalar enum.
#[verifier::reject_recursive_types(LogicalT)]
pub struct ScalarMut<'view, LogicalT, Adapter: ScalarMutationAdapter<Logical = LogicalT>> {
    input: ExclusiveInput<'view, Adapter::Wire>,
    token: Adapter::Token,
    marker: PhantomData<(LogicalT, Adapter)>,
}

impl<'view, LogicalT, Adapter: ScalarMutationAdapter<Logical = LogicalT>> View for ScalarMut<
    'view,
    LogicalT,
    Adapter,
> {
    type V = Seq<u8>;

    closed spec fn view(&self) -> Seq<u8> {
        self.input@
    }
}

impl<'view, LogicalT: Copy, Adapter: ScalarMutationAdapter<Logical = LogicalT>> ScalarMut<
    'view,
    LogicalT,
    Adapter,
> {
    /// The borrowed storage: what it holds once this handle is released is
    /// `final(self.storage())`.
    pub closed spec fn storage(&self) -> &'view mut [u8] {
        self.input.storage()
    }

    /// Once the handle is released, the borrowed storage holds what its view
    /// last showed.
    pub proof fn lemma_released(self)
        requires
            has_resolved(self),
        ensures
            final(self.storage())@ == self@,
    {
        self.input.lemma_released();
    }

    /// Whether the field holds a valid value of the exact field width; every
    /// handle is built by a successful proof and keeps this true.
    pub closed spec fn wf(&self) -> bool {
        &&& Adapter::valid(self@)
        &&& self@.len() == vstd::layout::size_of::<Adapter::Wire>()
    }

    /// Validates the exact current field bytes before constructing a mutation
    /// capability.
    pub fn prove(input: ExclusiveInput<'view, Adapter::Wire>, token: Adapter::Token) -> (r: Result<
        Self,
        <Adapter::Owner as OwnerAdapter>::AccessError,
    >)
        ensures
            input@.len() == vstd::layout::size_of::<Adapter::Wire>() ==> (r is Ok <==> Adapter::valid(
                input@,
            )),
            input@.len() != vstd::layout::size_of::<Adapter::Wire>() ==> r is Err,
            r matches Ok(handle) ==> handle@ == input@ && handle.wf(),
            r matches Ok(handle) ==> handle.storage() == input.storage(),
            r is Err ==> final(input.storage())@ == input@,
    {
        if input.len() != core::mem::size_of::<Adapter::Wire>() {
            proof {
                input.lemma_released();
            }
            return Err(
                <Adapter::Owner as OwnerAdapter>::access_layout(
                    LayoutError::IncorrectSize {
                        expected: core::mem::size_of::<Adapter::Wire>(),
                        actual: input.len(),
                    },
                ),
            );
        }
        match Adapter::read(input.shared()) {
            Ok(_) => {},
            Err(e) => {
                proof {
                    input.lemma_released();
                }
                return Err(e);
            },
        }
        Ok(ScalarMut { input, token, marker: PhantomData })
    }

    /// Returns the current logical scalar.
    pub fn get(&self) -> (r: LogicalT)
        requires
            self.wf(),
        ensures
            r == Adapter::value_of(self@),
    {
        match Adapter::read(self.input.shared()) {
            Ok(value) => value,
            Err(_) => vstd::pervasive::unreached(),
        }
    }

    /// Replaces the scalar after complete source preflight; a rejected value
    /// leaves the field unchanged, and an accepted one reads back as itself.
    pub fn set(&mut self, value: LogicalT) -> (r: Result<(), <Adapter::Owner as OwnerAdapter>::MutationError>)
        requires
            old(self).wf(),
        ensures
            final(self).wf(),
            final(final(self).storage())@ == final(old(self).storage())@,
            !Adapter::accepts(value) ==> r is Err && final(self)@ == old(self)@,
            r matches Err(error) ==> call_ensures(Adapter::preflight, (value,), Err::<(), <Adapter::Owner as OwnerAdapter>::MutationError>(error)),
            Adapter::accepts(value) ==> r is Ok && final(self)@ == Adapter::encoded(value)
                && Adapter::value_of(final(self)@) == value,
    {
        match Adapter::preflight(value) {
            Ok(()) => {},
            Err(e) => {
                assert(call_ensures(Adapter::preflight, (value,), Err::<(), <Adapter::Owner as OwnerAdapter>::MutationError>(e)));
                return Err(e);
            },
        }
        let len = self.input.len();
        let token = self.token;
        let destination = self.input.window_mut(0, len);
        Adapter::commit(destination, value, token);
        assert(self@ =~= Adapter::encoded(value));
        Ok(())
    }
}

/// A short exclusive mutation capability for one bounded string field.
///
/// The preflight checks capacity and prefix form before `commit` copies an
/// active value; unused capacity is deliberately left as it was.
pub struct StringMut<'view, Adapter: StringMutationAdapter> {
    input: ExclusiveInput<'view, Adapter::Wire>,
    token: Adapter::Token,
    marker: PhantomData<Adapter>,
}

impl<'view, Adapter: StringMutationAdapter> View for StringMut<'view, Adapter> {
    type V = Seq<u8>;

    closed spec fn view(&self) -> Seq<u8> {
        self.input@
    }
}

impl<'view, Adapter: StringMutationAdapter> StringMut<'view, Adapter> {
    /// The borrowed storage: what it holds once this handle is released is
    /// `final(self.storage())`.
    pub closed spec fn storage(&self) -> &'view mut [u8] {
        self.input.storage()
    }

    /// Once the handle is released, the borrowed storage holds what its view
    /// last showed.
    pub proof fn lemma_released(self)
        requires
            has_resolved(self),
        ensures
            final(self.storage())@ == self@,
    {
        self.input.lemma_released();
    }

    /// Whether the field holds a valid bounded string of the exact field
    /// width; every handle is built by a successful proof and keeps this true.
    pub closed spec fn wf(&self) -> bool {
        &&& Adapter::valid(self@)
        &&& self@.len() == vstd::layout::size_of::<Adapter::Wire>()
    }

    /// Validates the exact current field bytes before constructing a mutation
    /// capability.
    pub fn prove(input: ExclusiveInput<'view, Adapter::Wire>, token: Adapter::Token) -> (r: Result<
        Self,
        <Adapter::Owner as OwnerAdapter>::AccessError,
    >)
        ensures
            input@.len() == vstd::layout::size_of::<Adapter::Wire>() ==> (r is Ok <==> Adapter::valid(
                input@,
            )),
            input@.len() != vstd::layout::size_of::<Adapter::Wire>() ==> r is Err,
            r matches Ok(handle) ==> handle@ == input@ && handle.wf(),
            r matches Ok(handle) ==> handle.storage() == input.storage(),
            r is Err ==> final(input.storage())@ == input@,
    {
        if input.len() != core::mem::size_of::<Adapter::Wire>() {
            proof {
                input.lemma_released();
            }
            return Err(
                <Adapter::Owner as OwnerAdapter>::access_layout(
                    LayoutError::IncorrectSize {
                        expected: core::mem::size_of::<Adapter::Wire>(),
                        actual: input.len(),
                    },
                ),
            );
        }
        match Adapter::read(input.shared()) {
            Ok(_) => {},
            Err(e) => {
                proof {
                    input.lemma_released();
                }
                return Err(e);
            },
        }
        Ok(StringMut { input, token, marker: PhantomData })
    }

    /// Returns the active logical string.
    pub fn get(&self) -> (r: &Adapter::Logical)
        requires
            self.wf(),
        ensures
            Adapter::holds(self@, r),
    {
        match Adapter::read(self.input.shared()) {
            Ok(value) => value,
            Err(_) => vstd::pervasive::unreached(),
        }
    }

    /// Replaces the active string without clearing unused capacity; a
    /// rejected source leaves the field unchanged, and an accepted one reads
    /// back as itself.
    pub fn set(&mut self, value: &Adapter::Logical) -> (r: Result<
        (),
        <Adapter::Owner as OwnerAdapter>::MutationError,
    >)
        requires
            old(self).wf(),
        ensures
            final(self).wf(),
            final(final(self).storage())@ == final(old(self).storage())@,
            !Adapter::accepts(old(self)@, value) ==> r is Err && final(self)@ == old(self)@,
            r matches Err(error) ==> exists|current: SharedInput<Adapter::Wire>|
                #![trigger call_ensures(Adapter::preflight, (current, value), Err::<(), <Adapter::Owner as OwnerAdapter>::MutationError>(error))]
                current@ == old(self)@ && call_ensures(
                    Adapter::preflight,
                    (current, value),
                    Err::<(), <Adapter::Owner as OwnerAdapter>::MutationError>(error),
                ),
            Adapter::accepts(old(self)@, value) ==> r is Ok && final(self)@ == Adapter::committed(
                old(self)@,
                value,
            ) && Adapter::holds(final(self)@, value),
    {
        let current = self.input.shared();
        match Adapter::preflight(current, value) {
            Ok(()) => {},
            Err(e) => {
                assert(call_ensures(Adapter::preflight, (current, value), Err::<(), <Adapter::Owner as OwnerAdapter>::MutationError>(e)));
                return Err(e);
            },
        }
        let len = self.input.len();
        let token = self.token;
        let ghost before = self@;
        let destination = self.input.window_mut(0, len);
        assert(destination@ =~= before);
        Adapter::commit(destination, value, token);
        assert(self@ =~= Adapter::committed(before, value));
        Ok(())
    }
}

/// A short exclusive mutation capability for one fixed byte field.
pub struct BytesMut<'view, Adapter: FixedBytesMutationAdapter> {
    input: ExclusiveInput<'view, Adapter::Wire>,
    token: Adapter::Token,
    marker: PhantomData<Adapter>,
}

impl<'view, Adapter: FixedBytesMutationAdapter> View for BytesMut<'view, Adapter> {
    type V = Seq<u8>;

    closed spec fn view(&self) -> Seq<u8> {
        self.input@
    }
}

impl<'view, Adapter: FixedBytesMutationAdapter> BytesMut<'view, Adapter> {
    /// The borrowed storage: what it holds once this handle is released is
    /// `final(self.storage())`.
    pub closed spec fn storage(&self) -> &'view mut [u8] {
        self.input.storage()
    }

    /// Once the handle is released, the borrowed storage holds what its view
    /// last showed.
    pub proof fn lemma_released(self)
        requires
            has_resolved(self),
        ensures
            final(self.storage())@ == self@,
    {
        self.input.lemma_released();
    }

    /// Whether the field holds valid bytes of the exact field width.
    pub closed spec fn wf(&self) -> bool {
        &&& Adapter::valid(self@)
        &&& self@.len() == vstd::layout::size_of::<Adapter::Wire>()
    }

    /// Validates the exact current field bytes before constructing a mutation
    /// capability.
    pub fn prove(input: ExclusiveInput<'view, Adapter::Wire>, token: Adapter::Token) -> (r: Result<
        Self,
        <Adapter::Owner as OwnerAdapter>::AccessError,
    >)
        ensures
            input@.len() == vstd::layout::size_of::<Adapter::Wire>() ==> (r is Ok <==> Adapter::valid(
                input@,
            )),
            input@.len() != vstd::layout::size_of::<Adapter::Wire>() ==> r is Err,
            r matches Ok(handle) ==> handle@ == input@ && handle.wf(),
            r matches Ok(handle) ==> handle.storage() == input.storage(),
            r is Err ==> final(input.storage())@ == input@,
    {
        if input.len() != core::mem::size_of::<Adapter::Wire>() {
            proof {
                input.lemma_released();
            }
            return Err(
                <Adapter::Owner as OwnerAdapter>::access_layout(
                    LayoutError::IncorrectSize {
                        expected: core::mem::size_of::<Adapter::Wire>(),
                        actual: input.len(),
                    },
                ),
            );
        }
        match Adapter::read(input.shared()) {
            Ok(_) => {},
            Err(e) => {
                proof {
                    input.lemma_released();
                }
                return Err(e);
            },
        }
        Ok(BytesMut { input, token, marker: PhantomData })
    }

    /// Returns the current fixed byte value.
    pub fn get(&self) -> (r: &[u8])
        requires
            self.wf(),
        ensures
            r@ == self@,
    {
        match Adapter::read(self.input.shared()) {
            Ok(value) => value,
            Err(_) => vstd::pervasive::unreached(),
        }
    }

    /// Replaces exactly this field's bytes after full source preflight; a
    /// rejected source leaves the field unchanged.
    pub fn set(&mut self, value: &[u8]) -> (r: Result<(), <Adapter::Owner as OwnerAdapter>::MutationError>)
        requires
            old(self).wf(),
        ensures
            final(self).wf(),
            final(final(self).storage())@ == final(old(self).storage())@,
            !Adapter::accepts(value@) ==> r is Err && final(self)@ == old(self)@,
            r matches Err(error) ==> call_ensures(Adapter::preflight, (value,), Err::<(), <Adapter::Owner as OwnerAdapter>::MutationError>(error)),
            Adapter::accepts(value@) ==> r is Ok && final(self)@ == value@,
    {
        match Adapter::preflight(value) {
            Ok(()) => {},
            Err(e) => {
                assert(call_ensures(Adapter::preflight, (value,), Err::<(), <Adapter::Owner as OwnerAdapter>::MutationError>(e)));
                return Err(e);
            },
        }
        let len = self.input.len();
        let token = self.token;
        let destination = self.input.window_mut(0, len);
        Adapter::commit(destination, value, token);
        assert(self@ =~= value@);
        Ok(())
    }
}

/// Whether every byte of `bytes` is zero: the absent optional value.
pub open spec fn all_zero(bytes: Seq<u8>) -> bool {
    forall|i: int| 0 <= i < bytes.len() ==> bytes[i] == 0u8
}

/// The value span of an optional field's storage.
pub open spec fn option_value_span<A: OptionFieldAdapter>(storage: Seq<u8>) -> Seq<u8> {
    storage.subrange(
        A::spec_value_offset() as int,
        (A::spec_value_offset() + vstd::layout::size_of::<A::ValueWire>()) as int,
    )
}

/// Whether optional storage is valid: absent (all zero) or present with a
/// value span that fits and holds a valid present value.
pub open spec fn option_valid<A: OptionFieldAdapter>(storage: Seq<u8>) -> bool {
    all_zero(storage) || (A::spec_value_offset() + vstd::layout::size_of::<A::ValueWire>()
        <= storage.len() && A::present_valid(option_value_span::<A>(storage)))
}

/// Cleared storage is absent and valid: after `set(None)` every later `get`
/// reports absence until a present value is written.
pub proof fn lemma_cleared_storage_is_absent<A: OptionFieldAdapter>(len: nat)
    ensures
        all_zero(Seq::new(len, |i: int| 0u8)),
        option_valid::<A>(Seq::new(len, |i: int| 0u8)),
{
}

/// Why an optional field's storage was rejected with `error`: it is not all
/// zero, and either its value span does not fit (the owner's mapping of
/// that range failure) or the value adapter rejected the span.
pub open spec fn option_rejected<A: OptionFieldAdapter>(
    storage: Seq<u8>,
    error: <A::Owner as OwnerAdapter>::AccessError,
) -> bool {
    &&& !all_zero(storage)
    &&& match checked_range_spec(
        storage.len() as usize,
        A::spec_value_offset() as usize,
        vstd::layout::size_of::<A::ValueWire>() as usize,
    ) {
        Err(e) => call_ensures(<A::Owner as OwnerAdapter>::access_layout, (e,), error),
        Ok(_) => exists|value: SharedInput<A::ValueWire>|
            #![trigger call_ensures(A::validate_present, (value,), Err::<(), <A::Owner as OwnerAdapter>::AccessError>(error))]
            value@ == option_value_span::<A>(storage) && call_ensures(
                A::validate_present,
                (value,),
                Err::<(), <A::Owner as OwnerAdapter>::AccessError>(error),
            ),
    }
}

/// An O(1)-state exclusive capability for one zero-sentinel optional field.
///
/// Presence is never cached: each accessor scans the complete declared
/// storage span. A nonzero span is validated through the inner value adapter.
#[verifier::reject_recursive_types(LogicalT)]
pub struct OptionMut<'view, LogicalT, Adapter: OptionFieldAdapter> {
    input: ExclusiveInput<'view, Adapter::StorageWire>,
    token: Adapter::Token,
    marker: PhantomData<(LogicalT, Adapter)>,
}

impl<'view, LogicalT, Adapter: OptionFieldAdapter> View for OptionMut<'view, LogicalT, Adapter> {
    type V = Seq<u8>;

    closed spec fn view(&self) -> Seq<u8> {
        self.input@
    }
}

impl<'view, LogicalT, Adapter: OptionFieldAdapter> OptionMut<'view, LogicalT, Adapter> {
    /// The borrowed storage: what it holds once this handle is released is
    /// `final(self.storage())`.
    pub closed spec fn storage(&self) -> &'view mut [u8] {
        self.input.storage()
    }

    /// Once the handle is released, the borrowed storage holds what its view
    /// last showed.
    pub proof fn lemma_released(self)
        requires
            has_resolved(self),
        ensures
            final(self.storage())@ == self@,
    {
        self.input.lemma_released();
    }

    /// Whether the storage is a valid optional value; every handle is built
    /// by a successful proof and keeps this true.
    pub closed spec fn wf(&self) -> bool {
        option_valid::<Adapter>(self@)
    }

    /// Validates a nonzero optional field before constructing its mutation
    /// capability. An all-zero complete storage span is valid absence.
    pub fn prove(input: ExclusiveInput<'view, Adapter::StorageWire>, token: Adapter::Token) -> (r:
        Result<Self, <Adapter::Owner as OwnerAdapter>::AccessError>)
        ensures
            r is Ok <==> option_valid::<Adapter>(input@),
            r matches Ok(handle) ==> handle@ == input@ && handle.wf(),
            r matches Err(error) ==> option_rejected::<Adapter>(input@, error),
            r matches Ok(handle) ==> handle.storage() == input.storage(),
            r is Err ==> final(input.storage())@ == input@,
    {
        if !input.shared().is_all_zero() {
            let len = input.len();
            let offset = Adapter::value_offset();
            vstd::layout::layout_for_type_is_valid::<Adapter::ValueWire>();
            let range = match checked_range(len, offset, core::mem::size_of::<Adapter::ValueWire>()) {
                Ok(range) => range,
                Err(e) => {
                    proof {
                        input.lemma_released();
                    }
                    let error = <Adapter::Owner as OwnerAdapter>::access_layout(e);
                    assert(option_rejected::<Adapter>(input@, error));
                    return Err(error);
                },
            };
            let shared = input.shared();
            let value = SharedInput::<Adapter::ValueWire>::selected(
                slice_between(shared.bytes_of(), range.start, range.end),
            );
            match Adapter::validate_present(value) {
                Ok(()) => {},
                Err(e) => {
                    proof {
                        input.lemma_released();
                    }
                    assert(call_ensures(Adapter::validate_present, (value,), Err::<(), <Adapter::Owner as OwnerAdapter>::AccessError>(e)));
                    assert(option_rejected::<Adapter>(input@, e));
                    return Err(e);
                },
            }
        }
        Ok(OptionMut { input, token, marker: PhantomData })
    }

    /// Returns the current optional observation; the complete storage span is
    /// rescanned every call, and only an all-zero span is absent.
    pub fn get(&self) -> (r: Option<Adapter::Read<'_>>)
        requires
            self.wf(),
        ensures
            r is None <==> all_zero(self@),
            r matches Some(observation) ==> Adapter::reads_present(
                option_value_span::<Adapter>(self@),
                observation,
            ),
    {
        let shared = self.input.shared();
        if shared.is_all_zero() {
            return None;
        }
        let offset = Adapter::value_offset();
        let size = core::mem::size_of::<Adapter::ValueWire>();
        let _ = self.input.len();
        let value = SharedInput::<Adapter::ValueWire>::selected(
            slice_between(shared.bytes_of(), offset, offset + size),
        );
        match Adapter::read_present(value) {
            Ok(value) => Some(value),
            Err(_) => vstd::pervasive::unreached(),
        }
    }

    /// Returns the mutation capability of the present value, or `None` when
    /// the live storage is all zero.
    pub fn get_mut(&mut self) -> (r: Option<Adapter::Mut<'_>>)
        requires
            old(self).wf(),
        ensures
            r is None <==> all_zero(old(self)@),
            final(final(self).storage())@ == final(old(self).storage())@,
    {
        if self.input.shared().is_all_zero() {
            return None;
        }
        let offset = Adapter::value_offset();
        let size = core::mem::size_of::<Adapter::ValueWire>();
        let _ = self.input.len();
        let token = self.token;
        let value = ExclusiveInput::<Adapter::ValueWire>::selected_mut(
            self.input.window_mut(offset, offset + size),
        );
        match Adapter::make_present_mut(value, token) {
            Ok(value) => Some(value),
            Err(_) => vstd::pervasive::unreached(),
        }
    }

    /// Replaces this optional field after all source-dependent work
    /// completes. `None` clears the complete declared storage span. `Some`
    /// leaves field-local padding untouched and initializes only the value
    /// span; a rejected source leaves the storage unchanged.
    pub fn set(&mut self, value: Option<Adapter::Value>) -> (r: Result<
        (),
        <Adapter::Owner as OwnerAdapter>::MutationError,
    >)
        requires
            old(self).wf(),
        ensures
            final(self).wf(),
            final(final(self).storage())@ == final(old(self).storage())@,
            value is None ==> r is Ok && final(self)@ == Seq::new(old(self)@.len(), |i: int| 0u8),
            value matches Some(v) ==> match checked_range_spec(
                old(self)@.len() as usize,
                Adapter::spec_value_offset() as usize,
                vstd::layout::size_of::<Adapter::ValueWire>() as usize,
            ) {
                Err(e) => final(self)@ == old(self)@ && (r matches Err(error) && call_ensures(
                    <Adapter::Owner as OwnerAdapter>::mutation_layout,
                    (e,),
                    error,
                )),
                Ok(_) => if Adapter::accepts_init(option_value_span::<Adapter>(old(self)@), v) {
                    r is Ok && final(self)@ == old(self)@.subrange(
                        0,
                        Adapter::spec_value_offset() as int,
                    ) + Adapter::initialized(option_value_span::<Adapter>(old(self)@), v)
                        + old(self)@.subrange(
                        (Adapter::spec_value_offset() + vstd::layout::size_of::<Adapter::ValueWire>()) as int,
                        old(self)@.len() as int,
                    )
                } else {
                    final(self)@ == old(self)@ && (r matches Err(error) && exists|current: SharedInput<
                        Adapter::ValueWire,
                    >|
                        #![trigger call_ensures(Adapter::preflight_init, (current, &v), Err::<(), <Adapter::Owner as OwnerAdapter>::MutationError>(error))]
                        current@ == option_value_span::<Adapter>(old(self)@) && call_ensures(
                            Adapter::preflight_init,
                            (current, &v),
                            Err::<(), <Adapter::Owner as OwnerAdapter>::MutationError>(error),
                        ))
                },
            },
    {
        match value {
            None => {
                let token = self.token;
                Adapter::clear(&mut self.input, token);
                Ok(())
            },
            Some(value) => {
                let len = self.input.len();
                let offset = Adapter::value_offset();
                vstd::layout::layout_for_type_is_valid::<Adapter::ValueWire>();
                let range = match checked_range(
                    len,
                    offset,
                    core::mem::size_of::<Adapter::ValueWire>(),
                ) {
                    Ok(range) => range,
                    Err(e) => return Err(<Adapter::Owner as OwnerAdapter>::mutation_layout(e)),
                };
                let shared = self.input.shared();
                let current = SharedInput::<Adapter::ValueWire>::selected(
                    slice_between(shared.bytes_of(), range.start, range.end),
                );
                match Adapter::preflight_init(current, &value) {
                    Ok(()) => {},
                    Err(e) => {
                        assert(call_ensures(
                            Adapter::preflight_init,
                            (current, &value),
                            Err::<(), <Adapter::Owner as OwnerAdapter>::MutationError>(e),
                        ));
                        return Err(e);
                    },
                }
                let token = self.token;
                let ghost before = self@;
                let destination = self.input.window_mut(range.start, range.end);
                Adapter::commit_init(destination, &value, token);
                proof {
                    let mid = Adapter::initialized(option_value_span::<Adapter>(before), value);
                    assert(self@.subrange(range.start as int, range.end as int) =~= mid);
                }
                Ok(())
            },
        }
    }
}

} // verus!

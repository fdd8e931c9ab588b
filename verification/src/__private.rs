//! Implementation surface shared with generated schema support.

use vstd::prelude::*;

verus! {

/// Capability marker required for token-gated bounded byte access.
///
/// Each generated support module supplies a distinct token type whose
/// private field prevents downstream construction.
pub trait InputAccess {
    type Token: Copy;
}

/// Authorization associated with one root wire projection.
pub trait RootInputAccess {
    type Token: Copy;
}

} // verus!

pub use crate::access::{alignment_result, ExclusiveInput, ProvedExclusive, ProvedShared, SharedInput};
pub use crate::array::{
    checked_element_offset, checked_element_range, UnspecifiedArrayAdapter, UnspecifiedArrayError,
    UnspecifiedArrayOwner, UnspecifiedArrayToken,
};
pub use crate::codec::{
    decode_c_str, decode_str, decode_u16_c_str, decode_u16_str, encode_c_str, encode_fixed_bytes,
    encode_length, encode_str, encode_u16_c_str, encode_u16_str, validate_c_str_encode,
    validate_str_encode, validate_u16_c_str_encode, validate_u16_str_encode,
};
pub use crate::mutation::{checked_range, copy_bytes_at, copy_exact, subrange_mut};
pub use crate::strings::{
    commit_c_str, commit_str, commit_u16_c_str, commit_u16_str, invalid_utf8_source,
    preflight_c_str, preflight_length_prefixed, preflight_str, preflight_u16_c_str,
    preflight_u16_str, prove_c_str, prove_str, prove_u16_c_str, prove_u16_c_str_bytes, prove_u16_str,
    prove_u16_str_bytes, set_c_str, set_str,
    set_u16_c_str, set_u16_str, StringMutationError, StringProofError,
};
pub use crate::schema::__checked_wire_stride;
pub use crate::tagged::{
    checked_payload_range, checked_tagged_ranges, commit_payload_before_tag,
    commit_payload_before_tag_with, TaggedMutSelection, TaggedRefSelection,
};
pub use crate::wire::{
    AlignedWire, BigI16, BigI32, BigI64, BigU16, BigU32, BigU64, BoolWire, CStrWire, I8,
    LengthWire, LittleI16, LittleI32, LittleI64, LittleU16, LittleU32, LittleU64, NativeI16,
    NativeI32, NativeI64, NativeU16, NativeU32, NativeU64, ScalarWire, StrWire, U16CStrWire,
    U16StrWire, U8,
};

verus! {

/// Maps runtime field failures back to one owning schema's errors.
///
/// The mapping functions are required so checked arithmetic failures never
/// need an erased error object.
pub trait OwnerAdapter {
    type AccessError: crate::error::SchemaError;
    type MutationError: crate::error::SchemaError + From<Self::AccessError>;

    fn access_layout(error: crate::error::LayoutError) -> Self::AccessError;

    fn mutation_layout(error: crate::error::LayoutError) -> Self::MutationError;
}

/// Support for one fixed-array element under one owning schema.
///
/// All source checks occur in `preflight`; `commit` receives the exact
/// selected element bytes after the complete array preflight has succeeded
/// and is therefore infallible.
pub trait ArrayElementAdapter: InputAccess {
    type Wire;
    type Owner: OwnerAdapter;

    /// The zero-copy logical observation returned by reads.
    type Read<'wire>;

    /// The declared logical source accepted by `set` and `copy_from`.
    type Value;

    /// The element mutation capability returned by `get_mut`.
    type Mut<'wire>;

    /// Whether `bytes` hold a valid element at `index`.
    spec fn element_valid(index: int, bytes: Seq<u8>) -> bool;

    /// Whether `value` may replace the valid element `bytes` at `index`.
    spec fn accepts(index: int, bytes: Seq<u8>, value: Self::Value) -> bool;

    /// The element bytes after `value` is committed over `bytes` at `index`.
    spec fn committed(index: int, bytes: Seq<u8>, value: Self::Value) -> Seq<u8>;

    /// Whether `observation` is what a read of the valid element `bytes` at
    /// `index` returns.
    spec fn reads<'wire>(index: int, bytes: Seq<u8>, observation: Self::Read<'wire>) -> bool;

    fn prove(index: usize, input: SharedInput<'_, Self::Wire>) -> (r: Result<
        (),
        <Self::Owner as OwnerAdapter>::AccessError,
    >)
        ensures
            r is Ok <==> Self::element_valid(index as int, input@),
    ;

    fn read<'wire>(index: usize, input: SharedInput<'wire, Self::Wire>) -> (r: Result<
        Self::Read<'wire>,
        <Self::Owner as OwnerAdapter>::AccessError,
    >)
        ensures
            Self::element_valid(index as int, input@) ==> r is Ok,
            r matches Ok(observation) ==> Self::reads(index as int, input@, observation),
    ;

    fn preflight(index: usize, input: SharedInput<'_, Self::Wire>, value: &Self::Value) -> (r: Result<
        (),
        <Self::Owner as OwnerAdapter>::MutationError,
    >)
        ensures
            r is Ok <==> Self::accepts(index as int, input@, *value),
    ;

    fn commit(index: usize, destination: &mut [u8], value: &Self::Value, token: Self::Token)
        requires
            Self::element_valid(index as int, old(destination)@),
            Self::accepts(index as int, old(destination)@, *value),
        ensures
            final(destination)@ == Self::committed(index as int, old(destination)@, *value),
            final(destination)@.len() == old(destination)@.len(),
            Self::element_valid(index as int, final(destination)@),
    ;

    /// Creates the element mutation capability of one valid element.
    fn make_mut<'wire>(index: usize, input: ExclusiveInput<'wire, Self::Wire>, token: Self::Token) -> (r:
        Result<Self::Mut<'wire>, <Self::Owner as OwnerAdapter>::AccessError>)
        ensures
            Self::element_valid(index as int, input@) ==> r is Ok,
    ;

    /// Preflights a complete element source against a destination that need
    /// not be decoded; by default this is the ordinary preflight.
    fn preflight_init(index: usize, input: SharedInput<'_, Self::Wire>, value: &Self::Value) -> (r:
        Result<(), <Self::Owner as OwnerAdapter>::MutationError>)
        ensures
            r is Ok <==> Self::accepts(index as int, input@, *value),
    {
        Self::preflight(index, input, value)
    }

    /// Commits one fully preflighted element initialization; by default this
    /// is the ordinary commit.
    fn commit_init(index: usize, destination: &mut [u8], value: &Self::Value, token: Self::Token)
        requires
            Self::element_valid(index as int, old(destination)@),
            Self::accepts(index as int, old(destination)@, *value),
        ensures
            final(destination)@ == Self::committed(index as int, old(destination)@, *value),
            final(destination)@.len() == old(destination)@.len(),
            Self::element_valid(index as int, final(destination)@),
    {
        Self::commit(index, destination, value, token)
    }

    fn index_error(index: usize, len: usize) -> <Self::Owner as OwnerAdapter>::MutationError;

    fn length_error(actual: usize, expected: usize) -> <Self::Owner as OwnerAdapter>::MutationError;
}

} // verus!

verus! {

/// Field-local adapter for a scalar, Boolean, or scalar enum.
///
/// `preflight` validates only the new logical source value. `commit` receives
/// the exact field bytes and must be an infallible selected-range write.
pub trait ScalarMutationAdapter: InputAccess {
    type Wire;
    type Owner: OwnerAdapter;
    type Logical: Copy;

    /// Whether `bytes` hold a valid field value.
    spec fn valid(bytes: Seq<u8>) -> bool;

    /// The logical value held by valid field bytes.
    spec fn value_of(bytes: Seq<u8>) -> Self::Logical;

    /// Whether `value` may be stored.
    spec fn accepts(value: Self::Logical) -> bool;

    /// The field bytes that store `value`.
    spec fn encoded(value: Self::Logical) -> Seq<u8>;

    fn read(input: SharedInput<'_, Self::Wire>) -> (r: Result<
        Self::Logical,
        <Self::Owner as OwnerAdapter>::AccessError,
    >)
        ensures
            r is Ok <==> Self::valid(input@),
            r matches Ok(value) ==> value == Self::value_of(input@),
    ;

    fn preflight(value: Self::Logical) -> (r: Result<(), <Self::Owner as OwnerAdapter>::MutationError>)
        ensures
            r is Ok <==> Self::accepts(value),
    ;

    fn commit(destination: &mut [u8], value: Self::Logical, token: Self::Token)
        requires
            Self::accepts(value),
            old(destination)@.len() == vstd::layout::size_of::<Self::Wire>(),
        ensures
            final(destination)@ == Self::encoded(value),
            final(destination)@.len() == old(destination)@.len(),
            Self::valid(final(destination)@),
            Self::value_of(final(destination)@) == value,
    ;
}

/// Field-local adapter for one bounded string representation.
///
/// The logical string is unsized (`str` for a UTF-8 field). `preflight`
/// receives the current field so it can check capacity and prefix
/// representability before `commit` touches any byte.
pub trait StringMutationAdapter: InputAccess {
    type Wire;
    type Owner: OwnerAdapter;
    type Logical: ?Sized;

    /// Whether `bytes` hold a valid bounded string.
    spec fn valid(bytes: Seq<u8>) -> bool;

    /// Whether `value` is the active string held by the field bytes `bytes`.
    spec fn holds(bytes: Seq<u8>, value: &Self::Logical) -> bool;

    /// Whether `value` fits the field currently holding `bytes`.
    spec fn accepts(bytes: Seq<u8>, value: &Self::Logical) -> bool;

    /// The field bytes after `value` is stored over `bytes`.
    spec fn committed(bytes: Seq<u8>, value: &Self::Logical) -> Seq<u8>;

    fn read<'wire>(input: SharedInput<'wire, Self::Wire>) -> (r: Result<
        &'wire Self::Logical,
        <Self::Owner as OwnerAdapter>::AccessError,
    >)
        ensures
            r is Ok <==> Self::valid(input@),
            r matches Ok(value) ==> Self::holds(input@, value),
    ;

    fn preflight(input: SharedInput<'_, Self::Wire>, value: &Self::Logical) -> (r: Result<
        (),
        <Self::Owner as OwnerAdapter>::MutationError,
    >)
        ensures
            r is Ok <==> Self::accepts(input@, value),
    ;

    fn commit(destination: &mut [u8], value: &Self::Logical, token: Self::Token)
        requires
            Self::accepts(old(destination)@, value),
            old(destination)@.len() == vstd::layout::size_of::<Self::Wire>(),
        ensures
            final(destination)@ == Self::committed(old(destination)@, value),
            final(destination)@.len() == old(destination)@.len(),
            Self::valid(final(destination)@),
            Self::holds(final(destination)@, value),
    ;
}

/// Field-local adapter for one fixed byte field.
pub trait FixedBytesMutationAdapter: InputAccess {
    type Wire;
    type Owner: OwnerAdapter;

    /// Whether `bytes` hold a valid field value.
    spec fn valid(bytes: Seq<u8>) -> bool;

    /// Whether `value` may replace the field bytes.
    spec fn accepts(value: Seq<u8>) -> bool;

    fn read<'wire>(input: SharedInput<'wire, Self::Wire>) -> (r: Result<
        &'wire [u8],
        <Self::Owner as OwnerAdapter>::AccessError,
    >)
        ensures
            r is Ok <==> Self::valid(input@),
            r matches Ok(value) ==> value@ == input@,
    ;

    fn preflight(value: &[u8]) -> (r: Result<(), <Self::Owner as OwnerAdapter>::MutationError>)
        ensures
            r is Ok <==> Self::accepts(value@),
    ;

    fn commit(destination: &mut [u8], value: &[u8], token: Self::Token)
        requires
            Self::accepts(value@),
            old(destination)@.len() == vstd::layout::size_of::<Self::Wire>(),
        ensures
            final(destination)@ == value@,
            final(destination)@.len() == old(destination)@.len(),
            Self::valid(final(destination)@),
    ;
}

/// Field-local adapter for a zero-sentinel optional field.
///
/// `StorageWire` is the complete declared field span, including alignment
/// padding. `ValueWire` begins at `value_offset()` within that span and is
/// proved only after the storage is known nonzero.
pub trait OptionFieldAdapter: Sized + InputAccess {
    type StorageWire;
    type ValueWire;
    type Owner: OwnerAdapter;
    type Read<'wire>;
    type Value;
    type Mut<'wire>;

    /// Whether `bytes` hold a valid present value.
    spec fn present_valid(bytes: Seq<u8>) -> bool;

    /// Whether `value` may initialize the value span currently holding `bytes`.
    spec fn accepts_init(bytes: Seq<u8>, value: Self::Value) -> bool;

    /// The value span after `value` initializes it.
    spec fn initialized(bytes: Seq<u8>, value: Self::Value) -> Seq<u8>;

    /// Whether `observation` is what a read of the valid present value
    /// `bytes` returns.
    spec fn reads_present<'wire>(bytes: Seq<u8>, observation: Self::Read<'wire>) -> bool;

    /// The offset of the value span within the storage span.
    spec fn spec_value_offset() -> nat;

    fn value_offset() -> (r: usize)
        ensures
            r as nat == Self::spec_value_offset(),
    ;

    fn validate_present(input: SharedInput<'_, Self::ValueWire>) -> (r: Result<
        (),
        <Self::Owner as OwnerAdapter>::AccessError,
    >)
        ensures
            r is Ok <==> Self::present_valid(input@),
    ;

    fn read_present<'wire>(input: SharedInput<'wire, Self::ValueWire>) -> (r: Result<
        Self::Read<'wire>,
        <Self::Owner as OwnerAdapter>::AccessError,
    >)
        ensures
            Self::present_valid(input@) ==> r is Ok,
            r matches Ok(observation) ==> Self::reads_present(input@, observation),
    ;

    /// Creates the mutation capability of a valid present value.
    fn make_present_mut<'wire>(input: ExclusiveInput<'wire, Self::ValueWire>, token: Self::Token) -> (r:
        Result<Self::Mut<'wire>, <Self::Owner as OwnerAdapter>::AccessError>)
        ensures
            Self::present_valid(input@) ==> r is Ok,
    ;

    /// Checks a complete source without decoding the current destination.
    fn preflight_init(input: SharedInput<'_, Self::ValueWire>, value: &Self::Value) -> (r: Result<
        (),
        <Self::Owner as OwnerAdapter>::MutationError,
    >)
        ensures
            r is Ok <==> Self::accepts_init(input@, *value),
    ;

    /// Writes a fully preflighted source into the selected value span.
    fn commit_init(destination: &mut [u8], value: &Self::Value, token: Self::Token)
        requires
            Self::accepts_init(old(destination)@, *value),
            old(destination)@.len() == vstd::layout::size_of::<Self::ValueWire>(),
        ensures
            final(destination)@ == Self::initialized(old(destination)@, *value),
            final(destination)@.len() == old(destination)@.len(),
            Self::present_valid(final(destination)@),
    ;

    /// Clears exactly the declared storage span, padding included, behind
    /// this support's token.
    fn clear(input: &mut ExclusiveInput<'_, Self::StorageWire>, token: Self::Token)
        ensures
            final(input)@ == Seq::new(old(input)@.len(), |i: int| 0u8),
            final(final(input).storage())@ == final(old(input).storage())@,
    {
        input.clear_all::<Self>(token);
    }
}

} // verus!

verus! {

/// Support for a root or inline nested schema.
///
/// `validate` visits every declared field. The provided proof methods keep
/// the exact validated span and brand it by `Self`, so no layout-only input
/// becomes a capability. Patch commits stay write-only after a complete
/// preflight.
pub trait SchemaSupport: Sized + InputAccess {
    type Wire;
    type Owner: OwnerAdapter;
    type Ref<'wire>;
    type Mut<'wire>;

    /// Whether `bytes` hold a valid value of this schema.
    spec fn valid(bytes: Seq<u8>) -> bool;

    fn validate(input: SharedInput<'_, Self::Wire>) -> (r: Result<
        (),
        <Self::Owner as OwnerAdapter>::AccessError,
    >)
        ensures
            r is Ok <==> Self::valid(input@),
    ;

    /// Validates `input` and returns evidence of it branded by this support.
    fn prove<'wire>(input: SharedInput<'wire, Self::Wire>) -> (r: Result<
        ProvedShared<'wire, Self, Self::Wire>,
        <Self::Owner as OwnerAdapter>::AccessError,
    >)
        ensures
            r is Ok <==> Self::valid(input@),
            r matches Ok(proof) ==> proof@ == input@,
    {
        match Self::validate(input) {
            Ok(()) => Ok(ProvedShared::new(input)),
            Err(e) => Err(e),
        }
    }

    /// Validates `input` and returns exclusive evidence of it branded by this
    /// support.
    fn prove_mut<'wire>(input: ExclusiveInput<'wire, Self::Wire>) -> (r: Result<
        ProvedExclusive<'wire, Self, Self::Wire>,
        <Self::Owner as OwnerAdapter>::AccessError,
    >)
        ensures
            r is Ok <==> Self::valid(input@),
            r matches Ok(proof) ==> proof@ == input@,
    {
        match Self::validate(input.shared()) {
            Ok(()) => Ok(ProvedExclusive::new(input)),
            Err(e) => Err(e),
        }
    }

    fn make_ref<'wire>(proof: ProvedShared<'wire, Self, Self::Wire>) -> Self::Ref<'wire>
        requires
            Self::valid(proof@),
    ;

    fn make_mut<'wire>(proof: ProvedExclusive<'wire, Self, Self::Wire>) -> Self::Mut<'wire>
        requires
            Self::valid(proof@),
    ;

    /// Derives this support's write token only from an already authorized
    /// exclusive input.
    fn input_token(input: &ExclusiveInput<'_, Self::Wire>) -> Self::Token;
}

/// Patch behavior for one schema support implementation.
///
/// A separate trait lets a logical declaration with any number of source
/// lifetimes implement it without tying them to one lifetime parameter.
pub trait SchemaPatch<S: SchemaSupport> {
    /// Whether this patch supplies a complete logical replacement.
    spec fn complete(&self) -> bool;

    /// Whether this patch may be applied to the bytes `bytes`.
    spec fn accepts(&self, bytes: Seq<u8>) -> bool;

    /// The bytes after this patch is applied to `bytes`.
    spec fn committed(&self, bytes: Seq<u8>) -> Seq<u8>;

    fn is_complete(&self) -> (r: bool)
        ensures
            r == self.complete(),
    ;

    fn preflight(&self, input: SharedInput<'_, S::Wire>) -> (r: Result<
        (),
        <S::Owner as OwnerAdapter>::MutationError,
    >)
        ensures
            r is Ok <==> self.accepts(input@),
    ;

    fn commit(&self, destination: &mut [u8], token: S::Token)
        requires
            self.accepts(old(destination)@),
            old(destination)@.len() == vstd::layout::size_of::<S::Wire>(),
        ensures
            final(destination)@ == self.committed(old(destination)@),
            final(destination)@.len() == old(destination)@.len(),
    ;

    /// Preflights a complete patch against a destination that need not be
    /// decoded; by default this is the ordinary preflight.
    fn preflight_init(&self, input: SharedInput<'_, S::Wire>) -> (r: Result<
        (),
        <S::Owner as OwnerAdapter>::MutationError,
    >)
        ensures
            r is Ok <==> self.accepts(input@),
    {
        self.preflight(input)
    }

    /// Initializes every active byte promised by a complete patch after all
    /// preflight succeeds; by default this is the ordinary commit.
    fn commit_init(&self, destination: &mut [u8], token: S::Token)
        requires
            self.accepts(old(destination)@),
            old(destination)@.len() == vstd::layout::size_of::<S::Wire>(),
        ensures
            final(destination)@ == self.committed(old(destination)@),
            final(destination)@.len() == old(destination)@.len(),
    {
        self.commit(destination, token)
    }
}

/// Checks that a schema destination is valid, then that `patch` accepts it.
pub fn preflight_patch<S: SchemaSupport, P: SchemaPatch<S>>(input: SharedInput<'_, S::Wire>, patch: &P) -> (r:
    Result<(), <S::Owner as OwnerAdapter>::MutationError>)
    ensures
        r is Ok <==> S::valid(input@) && patch.accepts(input@),
{
    match S::validate(input) {
        Ok(()) => {},
        Err(e) => return Err(<S::Owner as OwnerAdapter>::MutationError::from(e)),
    }
    patch.preflight(input)
}

/// Commits an accepted patch; the bytes become what the patch commits.
pub fn commit_patch<S: SchemaSupport, P: SchemaPatch<S>>(destination: &mut [u8], patch: &P, token: S::Token)
    requires
        patch.accepts(old(destination)@),
        old(destination)@.len() == vstd::layout::size_of::<S::Wire>(),
    ensures
        final(destination)@ == patch.committed(old(destination)@),
        final(destination)@.len() == old(destination)@.len(),
{
    patch.commit(destination, token)
}

/// Two-pass mutation from a borrowed logical record, so array element
/// writes never need to move, clone, or copy nested logical values.
pub trait SchemaLogicalMutation<Logical>: SchemaSupport {
    /// Whether `value` may replace the record held by `bytes`.
    spec fn accepts_logical(bytes: Seq<u8>, value: Logical) -> bool;

    /// The record bytes after `value` is written over `bytes`.
    spec fn written_logical(bytes: Seq<u8>, value: Logical) -> Seq<u8>;

    fn preflight_logical(input: SharedInput<'_, Self::Wire>, value: &Logical) -> (r: Result<
        (),
        <Self::Owner as OwnerAdapter>::MutationError,
    >)
        ensures
            r is Ok <==> Self::accepts_logical(input@, *value),
    ;

    fn commit_logical(destination: &mut [u8], value: &Logical, token: Self::Token)
        requires
            Self::accepts_logical(old(destination)@, *value),
            old(destination)@.len() == vstd::layout::size_of::<Self::Wire>(),
        ensures
            final(destination)@ == Self::written_logical(old(destination)@, *value),
            final(destination)@.len() == old(destination)@.len(),
    ;

    /// Preflights a complete source against a destination that need not be
    /// decoded; by default this is the ordinary preflight.
    fn preflight_init_logical(input: SharedInput<'_, Self::Wire>, value: &Logical) -> (r: Result<
        (),
        <Self::Owner as OwnerAdapter>::MutationError,
    >)
        ensures
            r is Ok <==> Self::accepts_logical(input@, *value),
    {
        Self::preflight_logical(input, value)
    }

    /// Initializes every active byte promised by a complete source; callers
    /// finish all fallible work first. By default this is the ordinary commit.
    fn commit_init_logical(destination: &mut [u8], value: &Logical, token: Self::Token)
        requires
            Self::accepts_logical(old(destination)@, *value),
            old(destination)@.len() == vstd::layout::size_of::<Self::Wire>(),
        ensures
            final(destination)@ == Self::written_logical(old(destination)@, *value),
            final(destination)@.len() == old(destination)@.len(),
    {
        Self::commit_logical(destination, value, token)
    }
}

/// Support for a closed scalar enum representation.
pub trait ScalarEnumSupport: SchemaSupport {
    type Raw: Copy + Eq;
    type Value: Copy + Eq;

    /// The raw code stored in `bytes`.
    spec fn raw_of(bytes: Seq<u8>) -> Self::Raw;

    /// The declared value a raw code denotes, if any.
    spec fn value_of_raw(raw: Self::Raw) -> Option<Self::Value>;

    /// The raw code of a declared value.
    spec fn raw_of_value(value: Self::Value) -> Self::Raw;

    fn raw(input: SharedInput<'_, Self::Wire>) -> (r: Self::Raw)
        ensures
            r == Self::raw_of(input@),
    ;

    fn from_raw(raw: Self::Raw) -> (r: Option<Self::Value>)
        ensures
            r == Self::value_of_raw(raw),
    ;

    /// Every declared value has a code that decodes back to it.
    fn to_raw(value: Self::Value) -> (r: Self::Raw)
        ensures
            r == Self::raw_of_value(value),
            Self::value_of_raw(r) == Some(value),
    ;

    /// Stores a declared value into an exact selected field after the
    /// enclosing patch has finished all fallible preflight work.
    fn commit(destination: &mut [u8], value: Self::Value, token: Self::Token)
        requires
            old(destination)@.len() == vstd::layout::size_of::<Self::Wire>(),
        ensures
            final(destination)@.len() == old(destination)@.len(),
            Self::raw_of(final(destination)@) == Self::raw_of_value(value),
    ;
}

/// Materializes a logical value from a capability.
pub trait Materialize<Logical> {
    fn materialize(&self) -> Logical;
}

} // verus!

verus! {

/// Support for an externally tagged payload declaration.
///
/// A selected-payload capability is built only from a selection that binds
/// one decoded tag to the exact payload span validated for it. Patch methods
/// write payload bytes only; the containing record stores the tag after them.
pub trait TaggedPayloadSupport: Sized + InputAccess {
    type Tag: Copy + Eq;
    type Wire;
    type Owner: OwnerAdapter;
    type Logical<'wire>;
    type Ref<'wire>;
    type Mut<'wire>;

    /// Whether `bytes` hold a valid payload of the variant named by `tag`.
    spec fn selected_valid(tag: Self::Tag, bytes: Seq<u8>) -> bool;

    fn validate_selected(tag: Self::Tag, payload: SharedInput<'_, Self::Wire>) -> (r: Result<
        (),
        <Self::Owner as OwnerAdapter>::AccessError,
    >)
        ensures
            r is Ok <==> Self::selected_valid(tag, payload@),
    ;

    /// Derives this payload support's token from an exclusive range selected
    /// under an already authorized containing root.
    fn input_token(input: &ExclusiveInput<'_, Self::Wire>) -> Self::Token;

    fn make_ref<'wire>(selection: TaggedRefSelection<'wire, Self>) -> Self::Ref<'wire>;

    fn make_mut<'wire>(selection: TaggedMutSelection<'wire, Self>) -> Self::Mut<'wire>;

    fn materialize_selected<'wire>(selection: TaggedRefSelection<'wire, Self>) -> Self::Logical<'wire>;
}

/// Patch behavior for one tagged payload declaration.
pub trait TaggedPayloadPatch<S: TaggedPayloadSupport> {
    /// The tag this patch selects.
    spec fn tag_of(&self) -> S::Tag;

    /// Whether this patch supplies a complete payload.
    spec fn complete(&self) -> bool;

    /// Whether this patch may be applied to `bytes` while `current_tag` is stored.
    spec fn accepts(&self, current_tag: S::Tag, bytes: Seq<u8>) -> bool;

    /// The payload bytes after this patch is applied to `bytes`.
    spec fn committed(&self, bytes: Seq<u8>) -> Seq<u8>;

    /// Whether some preflight of this patch accepted `bytes`.
    open spec fn preflighted(&self, bytes: Seq<u8>) -> bool {
        exists|current_tag: S::Tag| self.accepts(current_tag, bytes)
    }

    fn tag(&self) -> (r: S::Tag)
        ensures
            r == self.tag_of(),
    ;

    fn is_complete(&self) -> (r: bool)
        ensures
            r == self.complete(),
    ;

    fn preflight(&self, current_tag: S::Tag, payload: SharedInput<'_, S::Wire>) -> (r: Result<
        (),
        <S::Owner as OwnerAdapter>::MutationError,
    >)
        ensures
            r is Ok <==> self.accepts(current_tag, payload@),
    ;

    /// Commits payload bytes only; tag storage is not reachable from here.
    fn commit(&self, payload: &mut [u8], token: S::Token)
        requires
            self.preflighted(old(payload)@),
            old(payload)@.len() == vstd::layout::size_of::<S::Wire>(),
        ensures
            final(payload)@ == self.committed(old(payload)@),
            final(payload)@.len() == old(payload)@.len(),
    ;

    /// Preflights a complete payload patch against its own tag, without
    /// decoding the destination payload or the current external tag.
    fn preflight_init(&self, payload: SharedInput<'_, S::Wire>) -> (r: Result<
        (),
        <S::Owner as OwnerAdapter>::MutationError,
    >)
        ensures
            r is Ok <==> self.accepts(self.tag_of(), payload@),
    {
        let tag = self.tag();
        self.preflight(tag, payload)
    }

    /// Initializes a selected payload after all root preflight succeeds.
    fn commit_init(&self, payload: &mut [u8], token: S::Token)
        requires
            self.preflighted(old(payload)@),
            old(payload)@.len() == vstd::layout::size_of::<S::Wire>(),
        ensures
            final(payload)@ == self.committed(old(payload)@),
            final(payload)@.len() == old(payload)@.len(),
    {
        self.commit(payload, token)
    }
}

/// Two-pass mutation from a borrowed logical tagged payload; the containing
/// record remains the coordinator of the external tag.
pub trait TaggedPayloadLogicalMutation<Logical>: TaggedPayloadSupport {
    /// The tag a logical payload selects.
    spec fn logical_tag_of(value: Logical) -> Self::Tag;

    /// Whether `value` may replace `bytes` while `current_tag` is stored.
    spec fn accepts_logical(current_tag: Self::Tag, bytes: Seq<u8>, value: Logical) -> bool;

    /// The payload bytes after `value` is written over `bytes`.
    spec fn written_logical(bytes: Seq<u8>, value: Logical) -> Seq<u8>;

    fn logical_tag(value: &Logical) -> (r: Self::Tag)
        ensures
            r == Self::logical_tag_of(*value),
    ;

    fn preflight_logical(
        current_tag: Self::Tag,
        payload: SharedInput<'_, Self::Wire>,
        value: &Logical,
    ) -> (r: Result<(), <Self::Owner as OwnerAdapter>::MutationError>)
        ensures
            r is Ok <==> Self::accepts_logical(current_tag, payload@, *value),
    ;

    fn commit_logical(payload: &mut [u8], value: &Logical, token: Self::Token)
        requires
            exists|current_tag: Self::Tag| Self::accepts_logical(current_tag, old(payload)@, *value),
            old(payload)@.len() == vstd::layout::size_of::<Self::Wire>(),
        ensures
            final(payload)@ == Self::written_logical(old(payload)@, *value),
            final(payload)@.len() == old(payload)@.len(),
    ;

    /// Preflights a complete payload source against its own tag, without
    /// reading the destination payload or an external tag.
    fn preflight_init_logical(payload: SharedInput<'_, Self::Wire>, value: &Logical) -> (r: Result<
        (),
        <Self::Owner as OwnerAdapter>::MutationError,
    >)
        ensures
            r is Ok <==> Self::accepts_logical(Self::logical_tag_of(*value), payload@, *value),
    {
        let tag = Self::logical_tag(value);
        Self::preflight_logical(tag, payload, value)
    }

    /// Initializes a selected payload; the containing record commits its tag
    /// only after this write returns.
    fn commit_init_logical(payload: &mut [u8], value: &Logical, token: Self::Token)
        requires
            exists|current_tag: Self::Tag| Self::accepts_logical(current_tag, old(payload)@, *value),
            old(payload)@.len() == vstd::layout::size_of::<Self::Wire>(),
        ensures
            final(payload)@ == Self::written_logical(old(payload)@, *value),
            final(payload)@.len() == old(payload)@.len(),
    {
        Self::commit_logical(payload, value, token)
    }
}

} // verus!

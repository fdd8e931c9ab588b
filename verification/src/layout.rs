//! Immutable diagnostic metadata for compiler-derived schema layouts.

use vstd::prelude::*;

verus! {
/// Describes the complete wire layout of a schema type.
///
/// This descriptor is diagnostic metadata only. It does not validate or access
/// backing storage.
#[derive(Clone, Copy, Debug, PartialEq, Eq)]
pub struct LayoutDescriptor {
    name: &'static str,
    kind: TypeKind,
    size: usize,
    align: usize,
    stride: usize,
    padding: &'static [ByteRange],
    fields: &'static [FieldDescriptor],
    enum_values: &'static [EnumValueDescriptor],
    variants: &'static [VariantDescriptor],
}

impl LayoutDescriptor {
    pub closed spec fn spec_name(&self) -> &'static str {
        self.name
    }

    pub closed spec fn spec_kind(&self) -> TypeKind {
        self.kind
    }

    pub closed spec fn spec_size(&self) -> usize {
        self.size
    }

    pub closed spec fn spec_align(&self) -> usize {
        self.align
    }

    pub closed spec fn spec_stride(&self) -> usize {
        self.stride
    }

    pub closed spec fn spec_padding(&self) -> &'static [ByteRange] {
        self.padding
    }

    pub closed spec fn spec_fields(&self) -> &'static [FieldDescriptor] {
        self.fields
    }

    pub closed spec fn spec_enum_values(&self) -> &'static [EnumValueDescriptor] {
        self.enum_values
    }

    pub closed spec fn spec_variants(&self) -> &'static [VariantDescriptor] {
        self.variants
    }

    /// Constructs diagnostic layout metadata for generated code.
    pub fn __new(
        name: &'static str,
        kind: TypeKind,
        size: usize,
        align: usize,
        stride: usize,
        padding: &'static [ByteRange],
        fields: &'static [FieldDescriptor],
        enum_values: &'static [EnumValueDescriptor],
        variants: &'static [VariantDescriptor],
    ) -> (r: Self)
        ensures
            r.spec_name() == name,
            r.spec_kind() == kind,
            r.spec_size() == size,
            r.spec_align() == align,
            r.spec_stride() == stride,
            r.spec_padding() == padding,
            r.spec_fields() == fields,
            r.spec_enum_values() == enum_values,
            r.spec_variants() == variants,
    {
        LayoutDescriptor { name, kind, size, align, stride, padding, fields, enum_values, variants }
    }

    pub fn name(&self) -> (r: &'static str)
        ensures
            r == self.spec_name(),
    {
        self.name
    }

    pub fn kind(&self) -> (r: TypeKind)
        ensures
            r == self.spec_kind(),
    {
        self.kind
    }

    pub fn size(&self) -> (r: usize)
        ensures
            r == self.spec_size(),
    {
        self.size
    }

    pub fn align(&self) -> (r: usize)
        ensures
            r == self.spec_align(),
    {
        self.align
    }

    pub fn stride(&self) -> (r: usize)
        ensures
            r == self.spec_stride(),
    {
        self.stride
    }

    /// Returns compiler-derived gaps between fields and trailing storage.
    ///
    /// Padding is never a validation or initialization policy.
    pub fn padding(&self) -> (r: &'static [ByteRange])
        ensures
            r == self.spec_padding(),
    {
        self.padding
    }

    pub fn fields(&self) -> (r: &'static [FieldDescriptor])
        ensures
            r == self.spec_fields(),
    {
        self.fields
    }

    pub fn enum_values(&self) -> (r: &'static [EnumValueDescriptor])
        ensures
            r == self.spec_enum_values(),
    {
        self.enum_values
    }

    pub fn variants(&self) -> (r: &'static [VariantDescriptor])
        ensures
            r == self.spec_variants(),
    {
        self.variants
    }
}

/// Describes one declared field and its wire placement.
#[derive(Clone, Copy, Debug, PartialEq, Eq)]
pub struct FieldDescriptor {
    name: &'static str,
    declaration_index: usize,
    offset: usize,
    size: usize,
    align: usize,
    kind: FieldKind,
    optional: bool,
}

impl FieldDescriptor {
    pub closed spec fn spec_name(&self) -> &'static str {
        self.name
    }

    pub closed spec fn spec_declaration_index(&self) -> usize {
        self.declaration_index
    }

    pub closed spec fn spec_offset(&self) -> usize {
        self.offset
    }

    pub closed spec fn spec_size(&self) -> usize {
        self.size
    }

    pub closed spec fn spec_align(&self) -> usize {
        self.align
    }

    pub closed spec fn spec_kind(&self) -> FieldKind {
        self.kind
    }

    pub closed spec fn spec_optional(&self) -> bool {
        self.optional
    }

    /// Constructs field metadata for generated code.
    pub fn __new(
        name: &'static str,
        declaration_index: usize,
        offset: usize,
        size: usize,
        align: usize,
        kind: FieldKind,
        optional: bool,
    ) -> (r: Self)
        ensures
            r.spec_name() == name,
            r.spec_declaration_index() == declaration_index,
            r.spec_offset() == offset,
            r.spec_size() == size,
            r.spec_align() == align,
            r.spec_kind() == kind,
            r.spec_optional() == optional,
    {
        FieldDescriptor { name, declaration_index, offset, size, align, kind, optional }
    }

    pub fn name(&self) -> (r: &'static str)
        ensures
            r == self.spec_name(),
    {
        self.name
    }

    /// Returns the source declaration order, independent of physical offset.
    pub fn declaration_index(&self) -> (r: usize)
        ensures
            r == self.spec_declaration_index(),
    {
        self.declaration_index
    }

    /// Returns the compiler-derived byte offset in the owning wire type.
    pub fn offset(&self) -> (r: usize)
        ensures
            r == self.spec_offset(),
    {
        self.offset
    }

    pub fn size(&self) -> (r: usize)
        ensures
            r == self.spec_size(),
    {
        self.size
    }

    pub fn align(&self) -> (r: usize)
        ensures
            r == self.spec_align(),
    {
        self.align
    }

    pub fn kind(&self) -> (r: FieldKind)
        ensures
            r == self.spec_kind(),
    {
        self.kind
    }

    /// Whether this field uses the zero-sentinel optional protocol.
    ///
    /// Its `offset..offset + size` storage span, including field-local
    /// alignment padding, is presence-significant. `kind` remains the inner
    /// field kind.
    pub fn is_optional(&self) -> (r: bool)
        ensures
            r == self.spec_optional(),
    {
        self.optional
    }
}

/// Describes a fixed-size array field.
#[derive(Clone, Copy, Debug, PartialEq, Eq)]
pub struct ArrayDescriptor {
    element: ArrayElementKind,
    length: usize,
    stride: usize,
}

impl ArrayDescriptor {
    pub closed spec fn spec_element(&self) -> ArrayElementKind {
        self.element
    }

    pub closed spec fn spec_length(&self) -> usize {
        self.length
    }

    pub closed spec fn spec_stride(&self) -> usize {
        self.stride
    }

    /// Constructs array metadata for generated code.
    pub fn __new(element: ArrayElementKind, length: usize, stride: usize) -> (r: Self)
        ensures
            r.spec_element() == element,
            r.spec_length() == length,
            r.spec_stride() == stride,
    {
        ArrayDescriptor { element, length, stride }
    }

    pub fn element(&self) -> (r: ArrayElementKind)
        ensures
            r == self.spec_element(),
    {
        self.element
    }

    /// Returns the fixed array length (`N`).
    pub fn length(&self) -> (r: usize)
        ensures
            r == self.spec_length(),
    {
        self.length
    }

    /// Returns the compiler-derived wire stride of one element.
    pub fn stride(&self) -> (r: usize)
        ensures
            r == self.spec_stride(),
    {
        self.stride
    }
}

/// Describes the sibling scalar-enum field that externally tags a payload.
#[derive(Clone, Copy, Debug, PartialEq, Eq)]
pub struct ExternalTagDescriptor {
    field_name: &'static str,
    offset: usize,
    layout: &'static LayoutDescriptor,
}

impl ExternalTagDescriptor {
    pub closed spec fn spec_field_name(&self) -> &'static str {
        self.field_name
    }

    pub closed spec fn spec_offset(&self) -> usize {
        self.offset
    }

    pub closed spec fn spec_layout(&self) -> &'static LayoutDescriptor {
        self.layout
    }

    /// Constructs external-tag metadata for generated code.
    pub fn __new(
        field_name: &'static str,
        offset: usize,
        layout: &'static LayoutDescriptor,
    ) -> (r: Self)
        ensures
            r.spec_field_name() == field_name,
            r.spec_offset() == offset,
            r.spec_layout() == layout,
    {
        ExternalTagDescriptor { field_name, offset, layout }
    }

    pub fn field_name(&self) -> (r: &'static str)
        ensures
            r == self.spec_field_name(),
    {
        self.field_name
    }

    /// Returns the compiler-derived sibling-field offset in the parent wire.
    pub fn offset(&self) -> (r: usize)
        ensures
            r == self.spec_offset(),
    {
        self.offset
    }

    pub fn layout(&self) -> (r: &'static LayoutDescriptor)
        ensures
            r == self.spec_layout(),
    {
        self.layout
    }
}

/// Describes string storage within a field.
#[derive(Clone, Copy, Debug, PartialEq, Eq)]
pub struct StringDescriptor {
    encoding: StringEncoding,
    capacity: usize,
    length: Option<LengthDescriptor>,
    data_offset: usize,
}

impl StringDescriptor {
    pub closed spec fn spec_encoding(&self) -> StringEncoding {
        self.encoding
    }

    pub closed spec fn spec_capacity(&self) -> usize {
        self.capacity
    }

    pub closed spec fn spec_length(&self) -> Option<LengthDescriptor> {
        self.length
    }

    pub closed spec fn spec_data_offset(&self) -> usize {
        self.data_offset
    }

    /// Constructs string metadata for generated code.
    pub fn __new(
        encoding: StringEncoding,
        capacity: usize,
        length: Option<LengthDescriptor>,
        data_offset: usize,
    ) -> (r: Self)
        ensures
            r.spec_encoding() == encoding,
            r.spec_capacity() == capacity,
            r.spec_length() == length,
            r.spec_data_offset() == data_offset,
    {
        StringDescriptor { encoding, capacity, length, data_offset }
    }

    pub fn encoding(&self) -> (r: StringEncoding)
        ensures
            r == self.spec_encoding(),
    {
        self.encoding
    }

    pub fn capacity(&self) -> (r: usize)
        ensures
            r == self.spec_capacity(),
    {
        self.capacity
    }

    /// Returns the optional length-prefix representation, endian, and offset.
    pub fn length(&self) -> (r: Option<LengthDescriptor>)
        ensures
            r == self.spec_length(),
    {
        self.length
    }

    pub fn data_offset(&self) -> (r: usize)
        ensures
            r == self.spec_data_offset(),
    {
        self.data_offset
    }
}

/// Describes a length prefix within string storage.
#[derive(Clone, Copy, Debug, PartialEq, Eq)]
pub struct LengthDescriptor {
    repr: LengthRepr,
    endian: Endian,
    offset: usize,
}

impl LengthDescriptor {
    pub closed spec fn spec_repr(&self) -> LengthRepr {
        self.repr
    }

    pub closed spec fn spec_endian(&self) -> Endian {
        self.endian
    }

    pub closed spec fn spec_offset(&self) -> usize {
        self.offset
    }

    /// Constructs length-prefix metadata for generated code.
    pub fn __new(repr: LengthRepr, endian: Endian, offset: usize) -> (r: Self)
        ensures
            r.spec_repr() == repr,
            r.spec_endian() == endian,
            r.spec_offset() == offset,
    {
        LengthDescriptor { repr, endian, offset }
    }

    pub fn repr(&self) -> (r: LengthRepr)
        ensures
            r == self.spec_repr(),
    {
        self.repr
    }

    pub fn endian(&self) -> (r: Endian)
        ensures
            r == self.spec_endian(),
    {
        self.endian
    }

    pub fn offset(&self) -> (r: usize)
        ensures
            r == self.spec_offset(),
    {
        self.offset
    }
}

/// Describes one declared scalar-enum value.
#[derive(Clone, Copy, Debug, PartialEq, Eq)]
pub struct EnumValueDescriptor {
    name: &'static str,
    raw_value: u64,
}

impl EnumValueDescriptor {
    pub closed spec fn spec_name(&self) -> &'static str {
        self.name
    }

    pub closed spec fn spec_raw_value(&self) -> u64 {
        self.raw_value
    }

    /// Constructs scalar-enum value metadata for generated code.
    pub fn __new(name: &'static str, raw_value: u64) -> (r: Self)
        ensures
            r.spec_name() == name,
            r.spec_raw_value() == raw_value,
    {
        EnumValueDescriptor { name, raw_value }
    }

    pub fn name(&self) -> (r: &'static str)
        ensures
            r == self.spec_name(),
    {
        self.name
    }

    pub fn raw_value(&self) -> (r: u64)
        ensures
            r == self.spec_raw_value(),
    {
        self.raw_value
    }
}

/// Describes one tagged-payload variant.
#[derive(Clone, Copy, Debug, PartialEq, Eq)]
pub struct VariantDescriptor {
    name: &'static str,
    raw_tag: u64,
    payload: &'static LayoutDescriptor,
    payload_size: usize,
    payload_align: usize,
}

impl VariantDescriptor {
    pub closed spec fn spec_name(&self) -> &'static str {
        self.name
    }

    pub closed spec fn spec_raw_tag(&self) -> u64 {
        self.raw_tag
    }

    pub closed spec fn spec_payload(&self) -> &'static LayoutDescriptor {
        self.payload
    }

    pub closed spec fn spec_payload_size(&self) -> usize {
        self.payload_size
    }

    pub closed spec fn spec_payload_align(&self) -> usize {
        self.payload_align
    }

    /// Constructs variant metadata for generated code.
    ///
    /// Unit variants use their generated nonzero private payload layout, so a
    /// payload always has a nonzero size and alignment.
    pub fn __new(
        name: &'static str,
        raw_tag: u64,
        payload: &'static LayoutDescriptor,
        payload_size: usize,
        payload_align: usize,
    ) -> (r: Self)
        requires
            payload_size != 0,
            payload_align != 0,
        ensures
            r.spec_name() == name,
            r.spec_raw_tag() == raw_tag,
            r.spec_payload() == payload,
            r.spec_payload_size() == payload_size,
            r.spec_payload_align() == payload_align,
    {
        VariantDescriptor { name, raw_tag, payload, payload_size, payload_align }
    }

    pub fn name(&self) -> (r: &'static str)
        ensures
            r == self.spec_name(),
    {
        self.name
    }

    pub fn raw_tag(&self) -> (r: u64)
        ensures
            r == self.spec_raw_tag(),
    {
        self.raw_tag
    }

    pub fn payload(&self) -> (r: &'static LayoutDescriptor)
        ensures
            r == self.spec_payload(),
    {
        self.payload
    }

    pub fn payload_size(&self) -> (r: usize)
        ensures
            r == self.spec_payload_size(),
    {
        self.payload_size
    }

    pub fn payload_align(&self) -> (r: usize)
        ensures
            r == self.spec_payload_align(),
    {
        self.payload_align
    }
}

/// A half-open byte range relative to its owning wire layout.
#[derive(Clone, Copy, Debug, PartialEq, Eq)]
pub struct ByteRange {
    start: usize,
    end: usize,
}

impl ByteRange {
    pub closed spec fn spec_start(&self) -> usize {
        self.start
    }

    pub closed spec fn spec_end(&self) -> usize {
        self.end
    }

    /// Constructs a range without validating its bounds.
    pub fn __new(start: usize, end: usize) -> (r: Self)
        ensures
            r.spec_start() == start,
            r.spec_end() == end,
    {
        ByteRange { start, end }
    }

    pub fn start(&self) -> (r: usize)
        ensures
            r == self.spec_start(),
    {
        self.start
    }

    pub fn end(&self) -> (r: usize)
        ensures
            r == self.spec_end(),
    {
        self.end
    }
}

/// The top-level form of a schema type.
#[derive(Clone, Copy, Debug, PartialEq, Eq, Structural)]
#[non_exhaustive]
pub enum TypeKind {
    Struct,
    ScalarEnum { repr: IntegerRepr, endian: Endian },
    /// A logical tagged payload declaration.
    ///
    /// Its physical tag belongs to a containing
    /// [`FieldKind::ExternalTaggedUnion`] field, not to this descriptor.
    TaggedUnion,
}

/// The logical interpretation of a field's wire storage.
#[derive(Clone, Copy, Debug, PartialEq, Eq)]
#[non_exhaustive]
pub enum FieldKind {
    Primitive { primitive: PrimitiveKind, endian: Endian },
    Bool,
    ScalarEnum { layout: &'static LayoutDescriptor },
    String(StringDescriptor),
    FixedBytes { length: usize },
    Array(ArrayDescriptor),
    Schema { layout: &'static LayoutDescriptor },
    ExternalTaggedUnion { payload: &'static LayoutDescriptor, tag: ExternalTagDescriptor },
}

/// Describes the element storage of a fixed-size array.
#[derive(Clone, Copy, Debug, PartialEq, Eq)]
#[non_exhaustive]
pub enum ArrayElementKind {
    Primitive { primitive: PrimitiveKind, endian: Endian },
    Bool,
    ScalarEnum { layout: &'static LayoutDescriptor },
    Schema { layout: &'static LayoutDescriptor },
}

#[derive(Clone, Copy, Debug, PartialEq, Eq, Structural)]
#[non_exhaustive]
pub enum PrimitiveKind {
    U8,
    I8,
    U16,
    I16,
    U32,
    I32,
    U64,
    I64,
    F32,
    F64,
}

#[derive(Clone, Copy, Debug, PartialEq, Eq, Structural)]
#[non_exhaustive]
pub enum IntegerRepr {
    U8,
    U16,
    U32,
}

#[derive(Clone, Copy, Debug, PartialEq, Eq, Structural)]
#[non_exhaustive]
pub enum LengthRepr {
    U8,
    U16,
    U32,
}

#[derive(Clone, Copy, Debug, PartialEq, Eq, Structural)]
#[non_exhaustive]
pub enum Endian {
    Native,
    Little,
    Big,
}

#[derive(Clone, Copy, Debug, PartialEq, Eq, Structural)]
#[non_exhaustive]
pub enum StringEncoding {
    Utf8,
    CBytes,
    U16,
    U16C,
}

} // verus!

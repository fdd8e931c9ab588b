//! The conformance model: the schemas, cases and layout metadata from which
//! the C++ side of the cross-language conformance suite is generated, and the
//! rendering of layout metrics as C++ constant expressions.

use vstd::prelude::*;
use vstd::string::StringExecFns;

use crate::error::{decimal_string, decimal_text};

verus! {

#[derive(Clone, Copy, Debug, PartialEq, Eq, Structural)]
pub enum Endian {
    Native,
    Little,
    Big,
}

#[derive(Clone, Copy, Debug, PartialEq, Eq, Structural)]
pub enum IntWidth {
    U8,
    U16,
    U32,
}

#[derive(Clone, Copy, Debug, PartialEq, Eq, Structural)]
pub enum Primitive {
    U8,
    I8,
    U16,
    I16,
    U32,
    I32,
    U64,
    I64,
    F32,
    F64,
}

#[derive(Clone, Copy, Debug, PartialEq, Eq, Structural)]
pub enum StringKind {
    Utf8,
    CBytes,
    U16,
    U16C,
}

/// The declared type of one schema field.
#[derive(Debug)]
pub enum Type {
    Primitive(Primitive),
    Bool,
    String(StringKind),
    FixedBytes(u32),
    Array { element: Box<Type>, length: u32 },
    Schema(String),
    Option(Box<Type>),
}

#[derive(Debug)]
pub struct Field {
    pub name: String,
    pub ty: Type,
    pub endian: Endian,
    pub align: Option<u32>,
    pub capacity: Option<u32>,
    pub len: Option<(IntWidth, Endian)>,
    pub tag_field: Option<String>,
}

#[derive(Debug)]
pub struct EnumVariant {
    pub name: String,
    pub raw: u64,
}

#[derive(Debug)]
pub struct TaggedVariant {
    pub name: String,
    pub tag_variant: String,
    pub payload: Option<String>,
}

#[derive(Debug)]
pub enum SchemaKind {
    Struct { fields: Vec<Field> },
    ScalarEnum { repr: IntWidth, endian: Endian, variants: Vec<EnumVariant> },
    TaggedEnum { tag: String, variants: Vec<TaggedVariant> },
}

#[derive(Debug)]
pub struct Schema {
    pub name: String,
    pub kind: SchemaKind,
    pub align: Option<u32>,
}

#[derive(Debug)]
pub struct RootRegistration {
    pub root_id: String,
    pub case_id: u32,
}

#[derive(Debug)]
pub enum Root {
    Schema(String),
}

/// A logical value of a conformance case.
#[derive(Debug)]
pub enum Value {
    Record(Vec<(String, Value)>),
    Union { ty: String, variant: String, fields: Vec<(String, Value)> },
    Bits(u64),
    Boolean(bool),
    Variant { ty: String, variant: String },
    Bytes(Vec<u8>),
    Units(Vec<u16>),
    Array(Vec<Value>),
    Absent,
    Present(Box<Value>),
}

/// One layout fact reported for a case's root.
#[derive(Debug)]
pub enum Metric {
    RootSize,
    RootAlign,
    RootStride,
    FieldOffset(String),
    FieldSize(String),
    FieldAlign(String),
    ArrayLength(String),
    ArrayStride(String),
    OptionalSpan(String),
    OptionalIsOptional(String),
    OptionalArrayLength(String),
    OptionalArrayStride(String),
    TagOffset,
    PayloadOffset,
    PayloadSize,
    PayloadAlign,
    TagSize,
    TagAlign,
    TagEndian,
    VariantRaw(String),
    VariantPayloadSize(String),
    VariantPayloadAlign(String),
    EnumSize(String),
    EnumAlign(String),
    EnumWidth(String),
    EnumEndian(String),
    EnumRaw(String),
    StringEncoding(String),
    StringCapacity(String),
    StringUnitWidth(String),
    StringDataOffset(String),
    StringLengthWidth(String),
    StringLengthEndian(String),
    StringLengthOffset(String),
}

/// One observation reported for a case's value.
#[derive(Debug)]
pub enum Observation {
    Scalar(Vec<String>),
    Tag(Vec<String>),
    Length(Vec<String>),
    Unit(Vec<String>, u32),
    Element(Vec<String>, u32),
    Optional(Vec<String>),
}

#[derive(Debug)]
pub struct MetricEntry {
    pub key: u64,
    pub metric: Metric,
}

#[derive(Debug)]
pub struct ObservationEntry {
    pub key: u64,
    pub source: Observation,
}

#[derive(Debug)]
pub struct Case {
    pub id: u32,
    pub root_id: String,
    pub root: Root,
    pub native: bool,
    pub value: Value,
    pub layout: Vec<MetricEntry>,
    pub observe: Vec<ObservationEntry>,
}

/// Every declared schema and every conformance case.
#[derive(Debug)]
pub struct Model {
    pub schemas: Vec<Schema>,
    pub cases: Vec<Case>,
}

#[derive(Debug)]
pub enum PathKind {
    Scalar,
    Bool,
    String(StringKind),
    FixedBytes,
    Array,
    Nested,
    Tag,
    Payload,
}

/// The C++ expressions that locate one field path of a generated type.
#[derive(Debug)]
pub struct PathMeta {
    pub schema: String,
    pub path: Vec<String>,
    pub offset_expr: String,
    pub width_expr: String,
    pub endian: Endian,
    pub kind: PathKind,
    pub data_offset_expr: Option<String>,
    pub len_offset_expr: Option<String>,
    pub len_width: Option<IntWidth>,
    pub capacity: Option<u32>,
    pub len_endian: Option<Endian>,
    pub unit_width: u32,
    pub array_length: Option<u32>,
    pub array_stride_expr: Option<String>,
    pub optional: bool,
}

/// One generated C++ type with its size and alignment expressions and paths.
#[derive(Debug)]
pub struct TypeMeta {
    pub schema: String,
    pub cpp: String,
    pub size_expr: String,
    pub align_expr: String,
    pub paths: Vec<PathMeta>,
}

#[derive(Debug)]
pub struct LayoutMetadata {
    pub types: Vec<TypeMeta>,
}

/// The generated C++ layout declarations, assertions, report arms and metadata.
#[derive(Debug)]
pub struct LayoutOutput {
    pub declarations: String,
    pub assertions: String,
    pub layout_case_arms: String,
    pub metadata: LayoutMetadata,
}

/// Whether `i` is the first index of `s` whose element satisfies `p`.
pub open spec fn first_match<T>(s: Seq<T>, p: spec_fn(T) -> bool, i: int) -> bool {
    &&& 0 <= i < s.len()
    &&& p(s[i])
    &&& forall|j: int| 0 <= j < i ==> !p(#[trigger] s[j])
}

/// The index of the first element of `s` satisfying `p`, if any.
pub open spec fn first_index<T>(s: Seq<T>, p: spec_fn(T) -> bool) -> Option<int> {
    if exists|i: int| first_match(s, p, i) {
        Some(choose|i: int| first_match(s, p, i))
    } else {
        None
    }
}

/// The first element of `s` satisfying `p`, if any.
pub open spec fn find_first<T>(s: Seq<T>, p: spec_fn(T) -> bool) -> Option<T> {
    match first_index(s, p) {
        Some(i) => Some(s[i]),
        None => None,
    }
}

/// A first match is the one `first_index` names.
pub proof fn lemma_first_match_found<T>(s: Seq<T>, p: spec_fn(T) -> bool, i: int)
    requires
        first_match(s, p, i),
    ensures
        first_index(s, p) == Some(i),
        find_first(s, p) == Some(s[i]),
{
    let k = choose|k: int| first_match(s, p, k);
    assert(first_match(s, p, k));
    if k < i {
        assert(!p(s[k]));
    } else if i < k {
        assert(!p(s[i]));
    }
}

/// Without a matching element there is no first match.
pub proof fn lemma_first_match_absent<T>(s: Seq<T>, p: spec_fn(T) -> bool)
    requires
        forall|j: int| 0 <= j < s.len() ==> !p(#[trigger] s[j]),
    ensures
        first_index(s, p) is None,
        find_first(s, p) is None,
{
    if exists|i: int| first_match(s, p, i) {
        let i = choose|i: int| first_match(s, p, i);
        assert(p(s[i]));
    }
}

pub open spec fn schema_named(n: Seq<char>) -> spec_fn(Schema) -> bool {
    |x: Schema| x.name@ == n
}

pub open spec fn field_named(n: Seq<char>) -> spec_fn(Field) -> bool {
    |x: Field| x.name@ == n
}

pub open spec fn type_named(n: Seq<char>) -> spec_fn(TypeMeta) -> bool {
    |x: TypeMeta| x.schema@ == n
}

/// The names of a field path.
pub open spec fn path_names(path: Seq<String>) -> Seq<Seq<char>> {
    path.map_values(|name: String| name@)
}

/// A path whose names are exactly `p`.
pub open spec fn path_is(p: Seq<Seq<char>>) -> spec_fn(PathMeta) -> bool {
    |x: PathMeta| path_names(x.path@) == p
}

/// A path of exactly the one field `n`.
pub open spec fn path_is_field(n: Seq<char>) -> spec_fn(PathMeta) -> bool {
    path_is(seq![n])
}

pub open spec fn is_payload_path() -> spec_fn(PathMeta) -> bool {
    |x: PathMeta| x.kind is Payload
}

pub open spec fn has_tag_field() -> spec_fn(Field) -> bool {
    |x: Field| x.tag_field is Some
}

pub open spec fn enum_variant_named(n: Seq<char>) -> spec_fn(EnumVariant) -> bool {
    |x: EnumVariant| x.name@ == n
}

pub open spec fn tagged_variant_named(n: Seq<char>) -> spec_fn(TaggedVariant) -> bool {
    |x: TaggedVariant| x.name@ == n
}

/// The schema named `n`.
pub open spec fn schema_of(m: Model, n: Seq<char>) -> Option<Schema> {
    find_first(m.schemas@, schema_named(n))
}

/// The fields of the record schema named `s`.
pub open spec fn record_fields(m: Model, s: Seq<char>) -> Option<Seq<Field>> {
    match schema_of(m, s) {
        Some(schema) => match schema.kind {
            SchemaKind::Struct { fields } => Some(fields@),
            _ => None,
        },
        None => None,
    }
}

/// Field `n` of the record schema named `s`.
pub open spec fn field_of(m: Model, s: Seq<char>, n: Seq<char>) -> Option<Field> {
    match record_fields(m, s) {
        Some(fields) => find_first(fields, field_named(n)),
        None => None,
    }
}

/// The declaration index of field `n` of the record schema named `s`.
pub open spec fn field_index_of(m: Model, s: Seq<char>, n: Seq<char>) -> Option<int> {
    match record_fields(m, s) {
        Some(fields) => first_index(fields, field_named(n)),
        None => None,
    }
}

/// The scalar enum named by field `n` of the record schema `s`.
pub open spec fn enum_field_of(m: Model, s: Seq<char>, n: Seq<char>) -> Option<Seq<char>> {
    match field_of(m, s, n) {
        Some(field) => match field.ty {
            Type::Schema(name) => Some(name@),
            _ => None,
        },
        None => None,
    }
}

/// The representation, byte order and variants of the scalar enum named `e`.
pub open spec fn scalar_enum_of(m: Model, e: Seq<char>) -> Option<(IntWidth, Endian, Seq<EnumVariant>)> {
    match schema_of(m, e) {
        Some(schema) => match schema.kind {
            SchemaKind::ScalarEnum { repr, endian, variants } => Some((repr, endian, variants@)),
            _ => None,
        },
        None => None,
    }
}

/// The generated type of the schema named `n`.
pub open spec fn type_of(md: LayoutMetadata, n: Seq<char>) -> Option<TypeMeta> {
    find_first(md.types@, type_named(n))
}

/// The path `p` of the generated type of schema `s`.
pub open spec fn path_at(md: LayoutMetadata, s: Seq<char>, p: Seq<Seq<char>>) -> Option<PathMeta> {
    match type_of(md, s) {
        Some(t) => find_first(t.paths@, path_is(p)),
        None => None,
    }
}

/// The single-field path `n` of the generated type of schema `s`.
pub open spec fn path_of(md: LayoutMetadata, s: Seq<char>, n: Seq<char>) -> Option<PathMeta> {
    path_at(md, s, seq![n])
}

/// The tagged union and tag field of the first externally tagged field of
/// the record schema `s`.
pub open spec fn tagged_context_of(m: Model, s: Seq<char>) -> Option<(Seq<char>, Seq<char>)> {
    match record_fields(m, s) {
        Some(fields) => match find_first(fields, has_tag_field()) {
            Some(payload) => match payload.ty {
                Type::Schema(tagged) => Some((tagged@, payload.tag_field->0@)),
                _ => None,
            },
            None => None,
        },
        None => None,
    }
}

/// The C++ byte width of an integer representation.
pub open spec fn int_width_bytes(w: IntWidth) -> nat {
    match w {
        IntWidth::U8 => 1,
        IntWidth::U16 => 2,
        IntWidth::U32 => 4,
    }
}

/// The report code of a byte order.
pub open spec fn endian_code(e: Endian) -> nat {
    match e {
        Endian::Native => 0,
        Endian::Little => 1,
        Endian::Big => 2,
    }
}

/// `alignof(decltype(<cpp>::m<index>))`: the alignment of one member.
pub open spec fn member_align_text(cpp: Seq<char>, index: nat) -> Seq<char> {
    "alignof(decltype("@ + cpp + "::m"@ + decimal_text(index) + "))"@
}

/// A field's declared alignment, or the alignment of its generated member.
pub open spec fn field_align_text(m: Model, root: TypeMeta, n: Seq<char>) -> Option<Seq<char>> {
    match field_of(m, root.schema@, n) {
        Some(field) => match field.align {
            Some(a) => Some(decimal_text(a as nat)),
            None => match field_index_of(m, root.schema@, n) {
                Some(i) => Some(member_align_text(root.cpp@, i as nat)),
                None => None,
            },
        },
        None => None,
    }
}

/// The size or alignment expression of the payload type of variant `v` of
/// the tagged union `s`; a variant without payload has size and alignment 1.
pub open spec fn variant_payload_text(
    m: Model,
    md: LayoutMetadata,
    s: Seq<char>,
    v: Seq<char>,
    align: bool,
) -> Option<Seq<char>> {
    match schema_of(m, s) {
        Some(schema) => match schema.kind {
            SchemaKind::TaggedEnum { variants, .. } => match find_first(
                variants@,
                tagged_variant_named(v),
            ) {
                Some(variant) => match variant.payload {
                    None => Some("1"@),
                    Some(p) => match type_of(md, p@) {
                        Some(t) => Some(
                            if align {
                                t.align_expr@
                            } else {
                                t.size_expr@
                            },
                        ),
                        None => None,
                    },
                },
                None => None,
            },
            _ => None,
        },
        None => None,
    }
}

/// The C++ constant expression reporting metric `x` of the generated root
/// type `root`, or `None` where the model does not describe it.
pub open spec fn metric_text(m: Model, md: LayoutMetadata, root: TypeMeta, x: Metric) -> Option<
    Seq<char>,
> {
    let s = root.schema@;
    match x {
        Metric::RootSize => Some(root.size_expr@),
        Metric::RootStride => Some(root.size_expr@),
        Metric::RootAlign => Some(root.align_expr@),
        Metric::FieldOffset(n) => match path_of(md, s, n@) {
            Some(p) => Some(p.offset_expr@),
            None => None,
        },
        Metric::FieldSize(n) => match path_of(md, s, n@) {
            Some(p) => Some(p.width_expr@),
            None => None,
        },
        Metric::FieldAlign(n) => field_align_text(m, root, n@),
        Metric::ArrayLength(n) => match field_of(m, s, n@) {
            Some(field) => match field.ty {
                Type::Array { length, .. } => Some(decimal_text(length as nat)),
                _ => None,
            },
            None => None,
        },
        Metric::ArrayStride(n) => match path_of(md, s, n@) {
            Some(p) => match p.array_stride_expr {
                Some(e) => Some(e@),
                None => None,
            },
            None => None,
        },
        Metric::OptionalSpan(n) => match path_of(md, s, n@) {
            Some(p) => Some(p.width_expr@),
            None => None,
        },
        Metric::OptionalIsOptional(n) => match path_of(md, s, n@) {
            Some(p) => Some(
                if p.optional {
                    "1"@
                } else {
                    "0"@
                },
            ),
            None => None,
        },
        Metric::OptionalArrayLength(n) => match path_of(md, s, n@) {
            Some(p) => if p.optional && p.array_length is Some {
                Some(decimal_text(p.array_length->0 as nat))
            } else {
                None
            },
            None => None,
        },
        Metric::OptionalArrayStride(n) => match path_of(md, s, n@) {
            Some(p) => if p.optional && p.array_stride_expr is Some {
                Some(p.array_stride_expr->0@)
            } else {
                None
            },
            None => None,
        },
        Metric::EnumSize(n) => match enum_field_of(m, s, n@) {
            Some(e) => match type_of(md, e) {
                Some(t) => Some(t.size_expr@),
                None => None,
            },
            None => None,
        },
        Metric::EnumAlign(n) => match enum_field_of(m, s, n@) {
            Some(e) => match type_of(md, e) {
                Some(t) => Some(t.align_expr@),
                None => None,
            },
            None => None,
        },
        Metric::EnumWidth(n) => match enum_field_of(m, s, n@) {
            Some(e) => match scalar_enum_of(m, e) {
                Some((repr, _, _)) => Some(decimal_text(int_width_bytes(repr))),
                None => None,
            },
            None => None,
        },
        Metric::EnumEndian(n) => match enum_field_of(m, s, n@) {
            Some(e) => match scalar_enum_of(m, e) {
                Some((_, endian, _)) => Some(decimal_text(endian_code(endian))),
                None => None,
            },
            None => None,
        },
        Metric::EnumRaw(n) => match enum_field_of(m, s, n@) {
            Some(e) => match scalar_enum_of(m, e) {
                Some((_, _, variants)) => if variants.len() > 0 {
                    Some(decimal_text(variants[0].raw as nat))
                } else {
                    None
                },
                None => None,
            },
            None => None,
        },
        Metric::StringEncoding(n) => match field_of(m, s, n@) {
            Some(field) => match field.ty {
                Type::String(k) => Some(
                    match k {
                        StringKind::Utf8 => "1"@,
                        StringKind::CBytes => "2"@,
                        StringKind::U16 => "3"@,
                        StringKind::U16C => "4"@,
                    },
                ),
                _ => None,
            },
            None => None,
        },
        Metric::StringCapacity(n) => match field_of(m, s, n@) {
            Some(field) => match field.capacity {
                Some(c) => Some(decimal_text(c as nat)),
                None => None,
            },
            None => None,
        },
        Metric::StringUnitWidth(n) => match path_of(md, s, n@) {
            Some(p) => Some(decimal_text(p.unit_width as nat)),
            None => None,
        },
        Metric::StringDataOffset(n) => match path_of(md, s, n@) {
            Some(p) => match p.data_offset_expr {
                Some(d) => Some("("@ + d@ + ")-("@ + p.offset_expr@ + ")"@),
                None => None,
            },
            None => None,
        },
        Metric::StringLengthWidth(n) => match field_of(m, s, n@) {
            Some(field) => Some(
                match field.len {
                    Some((w, _)) => decimal_text(int_width_bytes(w)),
                    None => "0"@,
                },
            ),
            None => None,
        },
        Metric::StringLengthEndian(n) => match field_of(m, s, n@) {
            Some(field) => Some(
                match field.len {
                    Some((_, e)) => decimal_text(endian_code(e)),
                    None => "0"@,
                },
            ),
            None => None,
        },
        Metric::StringLengthOffset(_) => Some("0"@),
        Metric::TagOffset => match tagged_context_of(m, s) {
            Some((_, tag_field)) => match path_of(md, s, tag_field) {
                Some(p) => Some(p.offset_expr@),
                None => None,
            },
            None => None,
        },
        Metric::PayloadOffset => match find_first(root.paths@, is_payload_path()) {
            Some(p) => Some(p.offset_expr@),
            None => None,
        },
        Metric::PayloadSize => match find_first(root.paths@, is_payload_path()) {
            Some(p) => Some(p.width_expr@),
            None => None,
        },
        Metric::PayloadAlign => match find_first(root.paths@, is_payload_path()) {
            Some(p) => if p.path@.len() > 0 {
                field_align_text(m, root, p.path@[0]@)
            } else {
                None
            },
            None => None,
        },
        Metric::TagSize => match tagged_context_of(m, s) {
            Some((_, tag_field)) => match path_of(md, s, tag_field) {
                Some(p) => Some(p.width_expr@),
                None => None,
            },
            None => None,
        },
        Metric::TagAlign => match tagged_context_of(m, s) {
            Some((_, tag_field)) => match field_index_of(m, s, tag_field) {
                Some(i) => Some(member_align_text(root.cpp@, i as nat)),
                None => None,
            },
            None => None,
        },
        Metric::TagEndian => match tagged_context_of(m, s) {
            Some((tagged, _)) => match schema_of(m, tagged) {
                Some(schema) => match schema.kind {
                    SchemaKind::TaggedEnum { tag, .. } => match scalar_enum_of(m, tag@) {
                        Some((_, endian, _)) => Some(decimal_text(endian_code(endian))),
                        None => None,
                    },
                    _ => None,
                },
                None => None,
            },
            None => None,
        },
        Metric::VariantRaw(v) => match tagged_context_of(m, s) {
            Some((tagged, _)) => match schema_of(m, tagged) {
                Some(schema) => match schema.kind {
                    SchemaKind::TaggedEnum { tag, .. } => match scalar_enum_of(m, tag@) {
                        Some((_, _, variants)) => match find_first(
                            variants,
                            enum_variant_named(v@),
                        ) {
                            Some(variant) => Some(decimal_text(variant.raw as nat)),
                            None => None,
                        },
                        None => None,
                    },
                    _ => None,
                },
                None => None,
            },
            None => None,
        },
        Metric::VariantPayloadSize(v) => match tagged_context_of(m, s) {
            Some((tagged, _)) => variant_payload_text(m, md, tagged, v@, false),
            None => None,
        },
        Metric::VariantPayloadAlign(v) => match tagged_context_of(m, s) {
            Some((tagged, _)) => variant_payload_text(m, md, tagged, v@, true),
            None => None,
        },
    }
}

/// The view of an optional string.
pub open spec fn opt_view(o: Option<String>) -> Option<Seq<char>> {
    match o {
        Some(text) => Some(text@),
        None => None,
    }
}

/// The stored type of a field: the inner type of an optional field.
pub open spec fn stored_type(t: Type) -> Type {
    match t {
        Type::Option(inner) => *inner,
        _ => t,
    }
}

/// The variants of the tagged union named `n`.
pub open spec fn tagged_variants_of(m: Model, n: Seq<char>) -> Option<Seq<TaggedVariant>> {
    match schema_of(m, n) {
        Some(schema) => match schema.kind {
            SchemaKind::TaggedEnum { variants, .. } => Some(variants@),
            _ => None,
        },
        None => None,
    }
}

/// The byte order and width of a path found directly in the metadata: a
/// single field of a record whose stored type is a scalar enum reports the
/// enum's byte order and representation width; any other path keeps its own.
pub open spec fn adjusted_order_width(
    m: Model,
    schema: Seq<char>,
    path: Seq<Seq<char>>,
    found: PathMeta,
) -> Option<(Endian, Seq<char>)> {
    let unchanged = Some((found.endian, found.width_expr@));
    if path.len() != 1 {
        unchanged
    } else {
        match schema_of(m, schema) {
            None => None,
            Some(sc) => match sc.kind {
                SchemaKind::Struct { fields } => match find_first(fields@, field_named(path[0])) {
                    None => unchanged,
                    Some(f) => match stored_type(f.ty) {
                        Type::Schema(child) => match schema_of(m, child@) {
                            None => None,
                            Some(cs) => match cs.kind {
                                SchemaKind::ScalarEnum { repr, endian, .. } => Some(
                                    (endian, decimal_text(int_width_bytes(repr))),
                                ),
                                _ => unchanged,
                            },
                        },
                        _ => unchanged,
                    },
                },
                _ => unchanged,
            },
        }
    }
}

/// `(<a>)+(<b>)`.
pub open spec fn sum_text(a: Seq<char>, b: Seq<char>) -> Seq<char> {
    "("@ + a + ")+("@ + b + ")"@
}

/// The metadata entry a resolution ends at, with the resolved offset, data
/// offset, length offset, byte order and width expressions.
pub type Resolution = (PathMeta, Seq<char>, Option<Seq<char>>, Option<Seq<char>>, Endian, Seq<char>);

/// Resolves `path` from schema `schema`. A path the metadata lists is taken
/// as it is. Otherwise its first name selects a record field (then the rest
/// resolves in the field's schema, or, through an external tag, the named
/// variant's payload) or a tagged-union variant (then the rest resolves in
/// its payload); the outer offset is added to the inner one.
pub open spec fn resolved(m: Model, md: LayoutMetadata, schema: Seq<char>, path: Seq<Seq<char>>) -> Option<
    Resolution,
>
    decreases path.len(),
{
    match type_of(md, schema) {
        None => None,
        Some(t) => match find_first(t.paths@, path_is(path)) {
            Some(found) => match adjusted_order_width(m, schema, path, found) {
                Some((endian, width)) => Some(
                    (
                        found,
                        found.offset_expr@,
                        opt_view(found.data_offset_expr),
                        opt_view(found.len_offset_expr),
                        endian,
                        width,
                    ),
                ),
                None => None,
            },
            None => if path.len() == 0 {
                None
            } else {
                match schema_of(m, schema) {
                    None => None,
                    Some(sc) => match sc.kind {
                        SchemaKind::Struct { fields } => match find_first(
                            fields@,
                            field_named(path[0]),
                        ) {
                            None => None,
                            Some(f) => match path_at(md, schema, seq![path[0]]) {
                                None => None,
                                Some(head) => match stored_type(f.ty) {
                                    Type::Schema(child) => {
                                        let tail = if f.tag_field is Some {
                                            match tagged_variants_of(m, child@) {
                                                Some(variants) => if path.len() < 2 {
                                                    None
                                                } else {
                                                    match find_first(
                                                        variants,
                                                        tagged_variant_named(path[1]),
                                                    ) {
                                                        Some(selected) => match selected.payload {
                                                            Some(p) => resolved(
                                                                m,
                                                                md,
                                                                p@,
                                                                path.subrange(2, path.len() as int),
                                                            ),
                                                            None => None,
                                                        },
                                                        None => None,
                                                    }
                                                },
                                                None => None,
                                            }
                                        } else {
                                            resolved(m, md, child@, path.subrange(1, path.len() as int))
                                        };
                                        match tail {
                                            Some(tl) => Some(
                                                (
                                                    tl.0,
                                                    sum_text(head.offset_expr@, tl.1),
                                                    match tl.2 {
                                                        Some(x) => Some(sum_text(head.offset_expr@, x)),
                                                        None => None,
                                                    },
                                                    match tl.3 {
                                                        Some(x) => Some(sum_text(head.offset_expr@, x)),
                                                        None => None,
                                                    },
                                                    tl.4,
                                                    tl.5,
                                                ),
                                            ),
                                            None => None,
                                        }
                                    },
                                    _ => None,
                                },
                            },
                        },
                        SchemaKind::TaggedEnum { variants, .. } => match find_first(
                            variants@,
                            tagged_variant_named(path[0]),
                        ) {
                            None => None,
                            Some(v) => match v.payload {
                                None => None,
                                Some(child) => match find_first(t.paths@, is_payload_path()) {
                                    None => None,
                                    Some(pm) => match resolved(
                                        m,
                                        md,
                                        child@,
                                        path.subrange(1, path.len() as int),
                                    ) {
                                        Some(tl) => Some(
                                            (tl.0, sum_text(pm.offset_expr@, tl.1), tl.2, tl.3, tl.4, tl.5),
                                        ),
                                        None => None,
                                    },
                                },
                            },
                        },
                        _ => None,
                    },
                }
            },
        },
    }
}

/// The schema a resolved path names: that of the metadata entry when the
/// path is listed directly, else the schema it was resolved from.
pub open spec fn resolved_schema(md: LayoutMetadata, schema: Seq<char>, path: Seq<Seq<char>>) -> Seq<char> {
    match type_of(md, schema) {
        Some(t) => match find_first(t.paths@, path_is(path)) {
            Some(found) => found.schema@,
            None => schema,
        },
        None => schema,
    }
}

/// Whether `r` is the path metadata a resolution describes, for the schema
/// it names and `path`.
pub open spec fn describes(r: PathMeta, v: Resolution, schema: Seq<char>, path: Seq<Seq<char>>) -> bool {
    &&& r.schema@ == schema
    &&& path_names(r.path@) == path
    &&& r.offset_expr@ == v.1
    &&& opt_view(r.data_offset_expr) == v.2
    &&& opt_view(r.len_offset_expr) == v.3
    &&& r.endian == v.4
    &&& r.width_expr@ == v.5
    &&& r.kind == v.0.kind
    &&& r.len_width == v.0.len_width
    &&& r.capacity == v.0.capacity
    &&& r.len_endian == v.0.len_endian
    &&& r.unit_width == v.0.unit_width
    &&& r.array_length == v.0.array_length
    &&& opt_view(r.array_stride_expr) == opt_view(v.0.array_stride_expr)
    &&& r.optional == v.0.optional
}

/// The C++ name of a byte order.
pub open spec fn endian_word(e: Endian) -> Seq<char> {
    match e {
        Endian::Native => "E_NATIVE"@,
        Endian::Little => "E_LITTLE"@,
        Endian::Big => "E_BIG"@,
    }
}

/// The presence variable of the optional field named by the one-name path
/// `path` of record schema `schema`: `optional_m<index>`.
pub open spec fn presence_var_text(m: Model, schema: Seq<char>, path: Seq<String>) -> Option<Seq<char>> {
    if path.len() != 1 {
        None
    } else {
        match record_fields(m, schema) {
            None => None,
            Some(fields) => match first_index(fields, field_named(path[0]@)) {
                None => None,
                Some(i) => if fields[i].ty is Option {
                    Some("optional_m"@ + decimal_text(i as nat))
                } else {
                    None
                },
            },
        }
    }
}

/// `get_bits(in,input_len,<pos>, <width>, <order>, &value)`.
pub open spec fn get_bits_text(pos: Seq<char>, width: Seq<char>, order: Seq<char>) -> Seq<char> {
    "get_bits(in,input_len,"@ + pos + ", "@ + width + ", "@ + order + ", &value)"@
}

/// The path an observation names.
pub open spec fn observed_path(o: Observation) -> Seq<String> {
    match o {
        Observation::Scalar(p) => p@,
        Observation::Tag(p) => p@,
        Observation::Length(p) => p@,
        Observation::Unit(p, _) => p@,
        Observation::Element(p, _) => p@,
        Observation::Optional(p) => p@,
    }
}

/// The path an observation reads: a tag observation reads the external tag
/// field of the payload field it names.
pub open spec fn effective_path(m: Model, schema: Seq<char>, o: Observation) -> Option<Seq<Seq<char>>> {
    let path = observed_path(o);
    if o is Tag {
        match record_fields(m, schema) {
            None => None,
            Some(fields) => if path.len() == 0 {
                None
            } else {
                match find_first(fields, field_named(path[0]@)) {
                    Some(payload) => match payload.tag_field {
                        Some(tag) => Some(seq![tag@]),
                        None => None,
                    },
                    None => None,
                }
            },
        }
    } else {
        Some(path_names(path))
    }
}

/// The C++ expression with which the generated inspector reads observation
/// `o` of a root of schema `schema` into `value`.
pub open spec fn observation_text(m: Model, layout: LayoutOutput, schema: Seq<char>, o: Observation) -> Option<
    Seq<char>,
> {
    match o {
        Observation::Optional(path) => match presence_var_text(m, schema, path@) {
            Some(presence) => Some("(value="@ + presence + "?UINT64_C(1):UINT64_C(0),true)"@),
            None => None,
        },
        _ => match effective_path(m, schema, o) {
            None => None,
            Some(path) => match resolved(m, layout.metadata, schema, path) {
                None => None,
                Some(v) => {
                    let leaf = v.0;
                    let offset = v.1;
                    let unit = decimal_text(leaf.unit_width as nat);
                    match o {
                        Observation::Length(_) => match leaf.len_width {
                            Some(w) => match (v.3, leaf.len_endian) {
                                (Some(lo), Some(le)) => Some(
                                    get_bits_text(
                                        "("@ + lo + ")"@,
                                        decimal_text(int_width_bytes(w)),
                                        endian_word(le),
                                    ),
                                ),
                                _ => None,
                            },
                            None => match (v.2, leaf.capacity) {
                                (Some(d), Some(c)) => Some(
                                    "c_length(in,input_len,"@ + "("@ + d + ")"@ + ", "@
                                        + decimal_text(c as nat) + ", "@ + unit + ", "@
                                        + endian_word(v.4) + ", &value)"@,
                                ),
                                _ => None,
                            },
                        },
                        Observation::Unit(_, index) => {
                            let data = match v.2 {
                                Some(d) => d,
                                None => offset,
                            };
                            let order = match leaf.kind {
                                PathKind::String(StringKind::U16) => Endian::Native,
                                PathKind::String(StringKind::U16C) => Endian::Native,
                                _ => v.4,
                            };
                            Some(
                                get_bits_text(
                                    "checked_add(("@ + data + "),UINT64_C("@ + decimal_text(
                                        (index * leaf.unit_width) as nat,
                                    ) + "),&scratch)"@,
                                    unit,
                                    endian_word(order),
                                ),
                            )
                        },
                        Observation::Element(_, index) => match leaf.array_stride_expr {
                            Some(stride) => Some(
                                get_bits_text(
                                    "checked_add(("@ + offset + "),UINT64_C("@ + decimal_text(
                                        index as nat,
                                    ) + ")*("@ + stride@ + "),&scratch)"@,
                                    unit,
                                    endian_word(v.4),
                                ),
                            ),
                            None => None,
                        },
                        _ => Some(get_bits_text("("@ + offset + ")"@, unit, endian_word(v.4))),
                    }
                },
            },
        },
    }
}

/// The C++ name and byte width of a primitive.
pub open spec fn primitive_spec(p: Primitive) -> (Seq<char>, nat) {
    match p {
        Primitive::U8 => ("std::uint8_t"@, 1),
        Primitive::I8 => ("std::int8_t"@, 1),
        Primitive::U16 => ("std::uint16_t"@, 2),
        Primitive::I16 => ("std::int16_t"@, 2),
        Primitive::U32 => ("std::uint32_t"@, 4),
        Primitive::I32 => ("std::int32_t"@, 4),
        Primitive::U64 => ("std::uint64_t"@, 8),
        Primitive::I64 => ("std::int64_t"@, 8),
        Primitive::F32 => ("float"@, 4),
        Primitive::F64 => ("double"@, 8),
    }
}

/// The unsigned C++ integer of a byte width.
pub open spec fn raw_primitive_spec(width: nat) -> Option<Seq<char>> {
    if width == 1 {
        Some("std::uint8_t"@)
    } else if width == 2 {
        Some("std::uint16_t"@)
    } else if width == 4 {
        Some("std::uint32_t"@)
    } else if width == 8 {
        Some("std::uint64_t"@)
    } else {
        None
    }
}

/// `((a) > (b) ? (a) : (b))`.
pub open spec fn max_text(a: Seq<char>, b: Seq<char>) -> Seq<char> {
    "(("@ + a + ") > ("@ + b + ") ? ("@ + a + ") : ("@ + b + "))"@
}

/// The generator's text state: helpers named so far, declarations, assertions.
pub type GenState = (nat, Seq<char>, Seq<char>);

/// The helper name `z<n>`.
pub open spec fn helper_name(n: nat) -> Seq<char> {
    "z"@ + decimal_text(n)
}

/// The C++ type name given to the schema named `n`.
pub open spec fn typename_of(names: Seq<(String, String)>, n: Seq<char>) -> Option<Seq<char>> {
    match find_first(names, |e: (String, String)| e.0@ == n) {
        Some(e) => Some(e.1@),
        None => None,
    }
}

/// A raw storage type of `width` bytes in byte order `e`: the plain unsigned
/// integer for one byte or native order, else a new byte-array helper of the
/// integer's alignment, declared and checked.
pub open spec fn raw_spec(st: GenState, width: nat, e: Endian) -> Option<(Seq<char>, GenState)> {
    match raw_primitive_spec(width) {
        None => None,
        Some(primitive) => if width == 1 || e == Endian::Native {
            Some((primitive, st))
        } else {
            let n = helper_name(st.0);
            let align = "alignof("@ + primitive + ")"@;
            Some(
                (
                    n,
                    (
                        st.0 + 1,
                        st.1 + "struct alignas("@ + align + ") "@ + n + " { std::uint8_t m0["@
                            + decimal_text(width) + "]; };\n"@,
                        st.2 + "static_assert(sizeof("@ + n + ")=="@ + decimal_text(width)
                            + " && alignof("@ + n + ")=="@ + align + ");\n"@,
                    ),
                ),
            )
        },
    }
}

/// The C++ type and unit width of a fixed-array element.
pub open spec fn element_type_spec(
    m: Model,
    names: Seq<(String, String)>,
    st: GenState,
    element: Type,
    e: Endian,
) -> Option<(Seq<char>, nat, GenState)>
    decreases element,
{
    match element {
        Type::Primitive(value) => {
            let (base, width) = primitive_spec(value);
            if width == 1 || e == Endian::Native {
                Some((base, width, st))
            } else {
                match raw_spec(st, width, e) {
                    Some((ty, st2)) => Some((ty, width, st2)),
                    None => None,
                }
            }
        },
        Type::Bool => Some(("std::uint8_t"@, 1, st)),
        Type::Schema(name) => match schema_of(m, name@) {
            Some(schema) => match schema.kind {
                SchemaKind::ScalarEnum { repr, endian, .. } => match raw_spec(
                    st,
                    int_width_bytes(repr),
                    endian,
                ) {
                    Some((ty, st2)) => Some((ty, int_width_bytes(repr), st2)),
                    None => None,
                },
                SchemaKind::Struct { .. } => match typename_of(names, name@) {
                    Some(t) => Some((t, 1, st)),
                    None => None,
                },
                SchemaKind::TaggedEnum { .. } => None,
            },
            None => None,
        },
        Type::Option(inner) => element_type_spec(m, names, st, *inner, e),
        _ => None,
    }
}

/// What lowering a field's stored type gives before any alignment wrapper:
/// its C++ type, path kind, unit width, data offset and length offset inside
/// the storage, length width, and the generator's state.
pub type LoweredCore = (Seq<char>, PathKind, nat, Option<Seq<char>>, Option<Seq<char>>, Option<IntWidth>, GenState);

/// Lowers the stored type of field `f` of record schema `schema`.
pub open spec fn lowered_core(
    m: Model,
    names: Seq<(String, String)>,
    st: GenState,
    f: Field,
) -> Option<LoweredCore> {
    match stored_type(f.ty) {
        Type::Primitive(p) => {
            let (base, w) = primitive_spec(p);
            if w == 1 || f.endian == Endian::Native {
                Some((base, PathKind::Scalar, w, None, None, None, st))
            } else {
                match raw_spec(st, w, f.endian) {
                    Some((t, st2)) => Some((t, PathKind::Scalar, w, None, None, None, st2)),
                    None => None,
                }
            }
        },
        Type::Bool => Some(("std::uint8_t"@, PathKind::Bool, 1, None, None, None, st)),
        Type::FixedBytes(n) => {
            let h = helper_name(st.0);
            Some(
                (
                    h,
                    PathKind::FixedBytes,
                    1,
                    None,
                    None,
                    None,
                    (
                        st.0 + 1,
                        st.1 + "struct "@ + h + " { std::uint8_t m0["@ + decimal_text(n as nat)
                            + "]; };\n"@,
                        st.2,
                    ),
                ),
            )
        },
        Type::Array { element, length } => match element_type_spec(m, names, st, *element, f.endian) {
            Some((element_type, width, st2)) => {
                let h = helper_name(st2.0);
                Some(
                    (
                        h,
                        PathKind::Array,
                        width,
                        None,
                        None,
                        None,
                        (
                            st2.0 + 1,
                            st2.1 + "struct "@ + h + " { "@ + element_type + " m0["@ + decimal_text(
                                length as nat,
                            ) + "]; };\n"@,
                            st2.2,
                        ),
                    ),
                )
            },
            None => None,
        },
        Type::Schema(n) => match schema_of(m, n@) {
            Some(child) => match child.kind {
                SchemaKind::ScalarEnum { repr, endian, .. } => match raw_spec(
                    st,
                    int_width_bytes(repr),
                    endian,
                ) {
                    Some((t, st2)) => Some(
                        (t, PathKind::Scalar, int_width_bytes(repr), None, None, None, st2),
                    ),
                    None => None,
                },
                SchemaKind::TaggedEnum { .. } => match typename_of(names, n@) {
                    Some(t) => Some(
                        (
                            t,
                            if f.tag_field is Some {
                                PathKind::Payload
                            } else {
                                PathKind::Nested
                            },
                            1,
                            None,
                            None,
                            None,
                            st,
                        ),
                    ),
                    None => None,
                },
                SchemaKind::Struct { .. } => match typename_of(names, n@) {
                    Some(t) => Some((t, PathKind::Nested, 1, None, None, None, st)),
                    None => None,
                },
            },
            None => None,
        },
        Type::String(k) => match f.capacity {
            None => None,
            Some(cap) => if k == StringKind::CBytes || k == StringKind::U16C {
                let h = helper_name(st.0);
                let dt = if k == StringKind::U16C {
                    "std::uint16_t"@
                } else {
                    "std::uint8_t"@
                };
                Some(
                    (
                        h,
                        PathKind::String(k),
                        if k == StringKind::U16C {
                            2
                        } else {
                            1
                        },
                        Some("0"@),
                        None,
                        None,
                        (
                            st.0 + 1,
                            st.1 + "struct "@ + h + " { "@ + dt + " m0["@ + decimal_text(cap as nat)
                                + "]; };\n"@,
                            st.2,
                        ),
                    ),
                )
            } else {
                match f.len {
                    None => None,
                    Some((lw, le)) => {
                        let h = helper_name(st.0);
                        let st1 = (st.0 + 1, st.1, st.2);
                        match raw_spec(st1, int_width_bytes(lw), le) {
                            None => None,
                            Some((lt, st2)) => {
                                let dt = if k == StringKind::U16 {
                                    "std::uint16_t"@
                                } else {
                                    "std::uint8_t"@
                                };
                                Some(
                                    (
                                        h,
                                        PathKind::String(k),
                                        if k == StringKind::U16 {
                                            2
                                        } else {
                                            1
                                        },
                                        Some("offsetof("@ + h + ",m1)"@),
                                        Some("0"@),
                                        Some(lw),
                                        (
                                            st2.0,
                                            st2.1 + "struct "@ + h + " { "@ + lt + " m0; "@ + dt
                                                + " m1["@ + decimal_text(cap as nat) + "]; };\n"@,
                                            st2.2 + "static_assert(offsetof("@ + h
                                                + ",m0)==0 && offsetof("@ + h + ",m1)>=sizeof("@
                                                + lt + "));\n"@,
                                        ),
                                    ),
                                )
                            },
                        }
                    },
                }
            },
        },
        Type::Option(_) => None,
    }
}

/// The C++ type of a lowered field after its alignment wrapper, if any, and
/// the generator's state: a declared alignment wraps the storage in a new
/// helper aligned to the larger of it and the storage's own alignment.
pub open spec fn aligned_type(f: Field, ty: Seq<char>, st: GenState) -> (Seq<char>, GenState) {
    match f.align {
        None => (ty, st),
        Some(a) => {
            let w = helper_name(st.0);
            let al = max_text(decimal_text(a as nat), "alignof("@ + ty + ")"@);
            (
                w,
                (
                    st.0 + 1,
                    st.1 + "struct alignas("@ + al + ") "@ + w + " { "@ + ty + " m0; };\n"@,
                    st.2 + "static_assert(alignof("@ + w + ")=="@ + al + " && sizeof("@ + w
                        + ")%alignof("@ + w + ")==0 && offsetof("@ + w + ",m0)==0);\n"@,
                ),
            )
        },
    }
}

/// The member type of field `f` after lowering and alignment, and the
/// generator's state after.
pub open spec fn lowered_type(m: Model, names: Seq<(String, String)>, st: GenState, f: Field) -> (
    Seq<char>,
    GenState,
) {
    let core = lowered_core(m, names, st, f)->0;
    aligned_type(f, core.0, core.6)
}

/// `offsetof(<type>, m<index>)`: the offset expression of member `index`.
pub open spec fn member_offset_text(cpp: Seq<char>, index: nat) -> Seq<char> {
    "offsetof("@ + cpp + ", m"@ + decimal_text(index) + ")"@
}

/// `(<base>)+(<x>)` for a present inner offset.
pub open spec fn based(base: Seq<char>, x: Option<Seq<char>>) -> Option<Seq<char>> {
    match x {
        Some(inner) => Some("("@ + base + ")+("@ + inner + ")"@),
        None => None,
    }
}

/// Whether `meta` is the path metadata that lowering field `f`, the
/// `index`-th field of record schema `schema`, from state `st` produces.
pub open spec fn field_meta_describes(
    meta: PathMeta,
    m: Model,
    names: Seq<(String, String)>,
    st: GenState,
    schema: Seq<char>,
    index: nat,
    f: Field,
) -> bool {
    let core = lowered_core(m, names, st, f)->0;
    let (ty, _) = aligned_type(f, core.0, core.6);
    let base = member_offset_text(typename_of(names, schema)->0, index);
    &&& meta.schema@ == schema
    &&& path_names(meta.path@) == seq![f.name@]
    &&& meta.offset_expr@ == base
    &&& meta.width_expr@ == "sizeof("@ + ty + ")"@
    &&& meta.endian == f.endian
    &&& meta.kind == core.1
    &&& meta.unit_width as nat == core.2
    &&& opt_view(meta.data_offset_expr) == based(base, core.3)
    &&& opt_view(meta.len_offset_expr) == based(base, core.4)
    &&& meta.len_width == core.5
    &&& meta.len_endian == (match f.len {
        Some((_, e)) => Some(e),
        None => None,
    })
    &&& meta.capacity == f.capacity
    &&& meta.array_length == (match stored_type(f.ty) {
        Type::Array { length, .. } => Some(length),
        _ => None,
    })
    &&& opt_view(meta.array_stride_expr) == (match stored_type(f.ty) {
        Type::Array { .. } => Some("sizeof("@ + core.0 + "::m0[0])"@),
        _ => None,
    })
    &&& meta.optional == f.ty is Option
}

/// Lowering the first `i` fields of a record in order, from state `st`:
/// each field's member name, member type and optionality, and the state after.
pub open spec fn lowered_prefix(
    m: Model,
    names: Seq<(String, String)>,
    st: GenState,
    fields: Seq<Field>,
    i: nat,
) -> Option<(Seq<(Seq<char>, Seq<char>, bool)>, GenState)>
    decreases i,
{
    if i == 0 {
        Some((Seq::empty(), st))
    } else {
        match lowered_prefix(m, names, st, fields, (i - 1) as nat) {
            None => None,
            Some((done, before)) => match lowered_core(m, names, before, fields[i - 1]) {
                None => None,
                Some(core) => {
                    let (ty, after) = aligned_type(fields[i - 1], core.0, core.6);
                    Some((done.push(("m"@ + decimal_text((i - 1) as nat), ty, fields[i - 1].ty is Option)), after))
                },
            },
        }
    }
}

/// The member lines of a generated record: `  <type> <member>;` each.
pub open spec fn members_text(lowered: Seq<(Seq<char>, Seq<char>, bool)>) -> Seq<char>
    decreases lowered.len(),
{
    if lowered.len() == 0 {
        Seq::empty()
    } else {
        members_text(lowered.drop_last()) + "  "@ + lowered.last().1 + " "@ + lowered.last().0 + ";\n"@
    }
}

/// The assertions on the members of generated record `cpp`: each member lies
/// inside the record, and an optional member has its storage's exact type,
/// size and alignment.
pub open spec fn member_asserts_text(cpp: Seq<char>, lowered: Seq<(Seq<char>, Seq<char>, bool)>) -> Seq<char>
    decreases lowered.len(),
{
    if lowered.len() == 0 {
        Seq::empty()
    } else {
        member_asserts_text(cpp, lowered.drop_last()) + member_assert_text(cpp, lowered.last())
    }
}

/// The assertions on one member of generated record `cpp`.
pub open spec fn member_assert_text(cpp: Seq<char>, lowered: (Seq<char>, Seq<char>, bool)) -> Seq<char> {
    let (member, ty, optional) = lowered;
    "static_assert(offsetof("@ + cpp + ","@ + member + ") < sizeof("@ + cpp + "));\n"@ + if optional {
        "static_assert(std::is_same<decltype("@ + cpp + "::"@ + member + "),"@ + ty + ">::value);\n"@
            + "static_assert(sizeof(decltype("@ + cpp + "::"@ + member + "))==sizeof("@ + ty
            + "));\n"@ + "static_assert(alignof(decltype("@ + cpp + "::"@ + member + "))==alignof("@
            + ty + "));\n"@
    } else {
        Seq::empty()
    }
}

/// The members of a generated union: a payload variant holds its payload
/// type, a unit variant a one-byte helper struct. Returns the member lines
/// and the state after naming the helpers.
pub open spec fn union_members(
    names: Seq<(String, String)>,
    st: GenState,
    variants: Seq<TaggedVariant>,
    i: nat,
) -> Option<(Seq<char>, GenState)>
    decreases i,
{
    if i == 0 {
        Some((Seq::empty(), st))
    } else {
        match union_members(names, st, variants, (i - 1) as nat) {
            None => None,
            Some((text, before)) => match variants[i - 1].payload {
                Some(payload) => match typename_of(names, payload@) {
                    Some(t) => Some(
                        (text + "  "@ + t + " m"@ + decimal_text((i - 1) as nat) + ";\n"@, before),
                    ),
                    None => None,
                },
                None => Some(
                    (
                        text + "  struct "@ + helper_name(before.0) + " { std::uint8_t value; } m"@
                            + decimal_text((i - 1) as nat) + ";\n"@,
                        (before.0 + 1, before.1, before.2),
                    ),
                ),
            },
        }
    }
}

/// The type metadata of generated type `cpp` for schema `n`, with no paths
/// described yet: its size and alignment are those of `cpp`.
pub open spec fn type_meta_head(t: TypeMeta, n: Seq<char>, cpp: Seq<char>) -> bool {
    &&& t.schema@ == n
    &&& t.cpp@ == cpp
    &&& t.size_expr@ == "sizeof("@ + cpp + ")"@
    &&& t.align_expr@ == "alignof("@ + cpp + ")"@
}

/// The view of lowered fields: member, type and optionality.
pub open spec fn lowered_view(v: Seq<(String, String, bool)>) -> Seq<(Seq<char>, Seq<char>, bool)> {
    v.map_values(|e: (String, String, bool)| (e.0@, e.1@, e.2))
}

/// The alignment attribute of a generated record.
pub open spec fn record_align_attribute(align: Option<u32>) -> Seq<char> {
    match align {
        Some(a) => if a > 1 {
            " alignas("@ + decimal_text(a as nat) + ")"@
        } else {
            Seq::empty()
        },
        None => Seq::empty(),
    }
}

/// The alignment attribute of a generated union.
pub open spec fn union_align_attribute(align: Option<u32>) -> Seq<char> {
    match align {
        Some(a) => " alignas("@ + decimal_text(a as nat) + ")"@,
        None => Seq::empty(),
    }
}

/// Whether generating schema `n` can proceed from state `st`: the schema and
/// its type name exist and everything it lowers is described by the model.
pub open spec fn schema_generable(m: Model, names: Seq<(String, String)>, st: GenState, n: Seq<char>) -> bool {
    &&& typename_of(names, n) is Some
    &&& match schema_of(m, n) {
        None => false,
        Some(schema) => match schema.kind {
            SchemaKind::ScalarEnum { .. } => st.0 + 1 <= usize::MAX,
            SchemaKind::Struct { fields } => {
                &&& lowered_prefix(m, names, st, fields@, fields@.len()) is Some
                &&& st.0 + 3 * fields@.len() <= usize::MAX
            },
            SchemaKind::TaggedEnum { variants, .. } => {
                &&& union_members(names, st, variants@, variants@.len()) is Some
                &&& st.0 + variants@.len() <= usize::MAX
            },
        },
    }
}

/// What generating schema `n` from state `st` produces: the state after and
/// the type metadata `t` it appends.
pub open spec fn schema_generated(
    m: Model,
    names: Seq<(String, String)>,
    st: GenState,
    n: Seq<char>,
    after: GenState,
    t: TypeMeta,
) -> bool {
    let cpp = typename_of(names, n)->0;
    let schema = schema_of(m, n)->0;
    &&& type_meta_head(t, n, cpp)
    &&& match schema.kind {
        SchemaKind::ScalarEnum { repr, endian, .. } => {
            let (r, st1) = raw_spec(st, int_width_bytes(repr), endian)->0;
            &&& after == (st1.0, st1.1 + "using "@ + cpp + " = "@ + r + ";\n"@, st1.2)
            &&& t.paths@.len() == 0
        },
        SchemaKind::Struct { fields } => {
            let (low, st1) = lowered_prefix(m, names, st, fields@, fields@.len())->0;
            &&& after == (
                st1.0,
                st1.1 + "struct"@ + record_align_attribute(schema.align) + " "@ + cpp + " {\n"@
                    + members_text(low) + "};\n"@,
                st1.2 + member_asserts_text(cpp, low) + "static_assert(std::is_standard_layout<"@
                    + cpp + ">::value && std::is_trivially_copyable<"@ + cpp + ">::value);\n"@,
            )
            &&& t.paths@.len() == fields@.len()
            &&& forall|k: int|
                0 <= k < fields@.len() ==> field_meta_describes(
                    #[trigger] t.paths@[k],
                    m,
                    names,
                    state_before(m, names, st, fields@, k as nat),
                    n,
                    k as nat,
                    fields@[k],
                )
        },
        SchemaKind::TaggedEnum { variants, .. } => {
            let (members, st1) = union_members(names, st, variants@, variants@.len())->0;
            &&& after == (
                st1.0,
                st1.1 + "union"@ + union_align_attribute(schema.align) + " "@ + cpp + " {\n"@
                    + members + "};\n"@,
                st1.2 + "static_assert(sizeof("@ + cpp + ")>0 && std::is_standard_layout<"@ + cpp
                    + ">::value && std::is_trivially_copyable<"@ + cpp + ">::value);\n"@,
            )
            &&& t.paths@.len() == 1
            &&& t.paths@[0].schema@ == n
            &&& path_names(t.paths@[0].path@) == seq!["$payload"@]
            &&& t.paths@[0].offset_expr@ == "0"@
            &&& t.paths@[0].width_expr@ == "sizeof("@ + cpp + ")"@
            &&& t.paths@[0].endian == Endian::Native
            &&& t.paths@[0].kind == PathKind::Payload
            &&& t.paths@[0].data_offset_expr is None
            &&& t.paths@[0].len_offset_expr is None
            &&& t.paths@[0].len_width is None
            &&& t.paths@[0].len_endian is None
            &&& t.paths@[0].capacity is None
            &&& t.paths@[0].unit_width == 1
            &&& t.paths@[0].array_length is None
            &&& t.paths@[0].array_stride_expr is None
            &&& !t.paths@[0].optional
        },
    }
}

/// The generator's state before lowering field `k`.
pub open spec fn state_before(m: Model, names: Seq<(String, String)>, st: GenState, fields: Seq<Field>, k: nat) -> GenState {
    let (_, before) = lowered_prefix(m, names, st, fields, k)->0;
    before
}

/// A shorter prefix of a lowering that succeeds also succeeds.
pub proof fn lemma_lowered_prefix_shorter(
    m: Model,
    names: Seq<(String, String)>,
    st: GenState,
    fields: Seq<Field>,
    i: nat,
    j: nat,
)
    requires
        i <= j,
        lowered_prefix(m, names, st, fields, j) is Some,
    ensures
        lowered_prefix(m, names, st, fields, i) is Some,
    decreases j - i,
{
    if i < j {
        lemma_lowered_prefix_shorter(m, names, st, fields, i, (j - 1) as nat);
    }
}

/// A shorter prefix of a union's members that succeeds also succeeds.
pub proof fn lemma_union_members_shorter(
    names: Seq<(String, String)>,
    st: GenState,
    variants: Seq<TaggedVariant>,
    i: nat,
    j: nat,
)
    requires
        i <= j,
        union_members(names, st, variants, j) is Some,
    ensures
        union_members(names, st, variants, i) is Some,
    decreases j - i,
{
    if i < j {
        lemma_union_members_shorter(names, st, variants, i, (j - 1) as nat);
    }
}

/// Whether two strings have the same text, compared byte by byte.
pub fn same_text(a: &str, b: &str) -> (r: bool)
    ensures
        r == (a@ == b@),
{
    let x = a.as_bytes();
    let y = b.as_bytes();
    proof {
        vstd::utf8::encode_utf8_decode_utf8(a@);
        vstd::utf8::encode_utf8_decode_utf8(b@);
        assert(a@ == b@ ==> x@ =~= y@);
    }
    if x.len() != y.len() {
        return false;
    }
    let mut i: usize = 0;
    while i < x.len()
        invariant
            x@.len() == y@.len(),
            i <= x@.len(),
            forall|k: int| 0 <= k < i ==> x@[k] == y@[k],
            a@ == b@ ==> x@ == y@,
        decreases x@.len() - i,
    {
        if x[i] != y[i] {
            return false;
        }
        i += 1;
    }
    assert(x@ =~= y@);
    true
}

/// Whether the names of `path` are exactly `names`.
fn same_path(path: &Vec<String>, names: &[String]) -> (r: bool)
    ensures
        r == (path_names(path@) == path_names(names@)),
{
    if path.len() != names.len() {
        assert(path_names(path@).len() != path_names(names@).len());
        return false;
    }
    let mut i: usize = 0;
    while i < path.len()
        invariant
            path@.len() == names@.len(),
            i <= path@.len(),
            forall|k: int| 0 <= k < i ==> path@[k]@ == names@[k]@,
        decreases path@.len() - i,
    {
        if !same_text(path[i].as_str(), names[i].as_str()) {
            assert(path_names(path@)[i as int] != path_names(names@)[i as int]);
            return false;
        }
        i += 1;
    }
    assert(path_names(path@) =~= path_names(names@));
    true
}

/// The index of the first schema named `n`.
pub(crate) fn schema_index(schemas: &Vec<Schema>, n: &str) -> (r: Option<usize>)
    ensures
        r matches Some(i) ==> first_match(schemas@, schema_named(n@), i as int),
        r is None ==> forall|j: int| 0 <= j < schemas@.len() ==> !schema_named(n@)(#[trigger] schemas@[j]),
{
    let mut i: usize = 0;
    while i < schemas.len()
        invariant
            i <= schemas@.len(),
            forall|j: int| 0 <= j < i ==> !schema_named(n@)(#[trigger] schemas@[j]),
        decreases schemas@.len() - i,
    {
        if same_text(schemas[i].name.as_str(), n) {
            return Some(i);
        }
        i += 1;
    }
    None
}

/// The index of the first field named `n`.
pub(crate) fn field_position(fields: &Vec<Field>, n: &str) -> (r: Option<usize>)
    ensures
        r matches Some(i) ==> first_match(fields@, field_named(n@), i as int),
        r is None ==> forall|j: int| 0 <= j < fields@.len() ==> !field_named(n@)(#[trigger] fields@[j]),
{
    let mut i: usize = 0;
    while i < fields.len()
        invariant
            i <= fields@.len(),
            forall|j: int| 0 <= j < i ==> !field_named(n@)(#[trigger] fields@[j]),
        decreases fields@.len() - i,
    {
        if same_text(fields[i].name.as_str(), n) {
            return Some(i);
        }
        i += 1;
    }
    None
}

/// The index of the first field with an external tag.
fn tagged_field_position(fields: &Vec<Field>) -> (r: Option<usize>)
    ensures
        r matches Some(i) ==> first_match(fields@, has_tag_field(), i as int),
        r is None ==> forall|j: int| 0 <= j < fields@.len() ==> !has_tag_field()(#[trigger] fields@[j]),
{
    let mut i: usize = 0;
    while i < fields.len()
        invariant
            i <= fields@.len(),
            forall|j: int| 0 <= j < i ==> !has_tag_field()(#[trigger] fields@[j]),
        decreases fields@.len() - i,
    {
        if fields[i].tag_field.is_some() {
            return Some(i);
        }
        i += 1;
    }
    None
}

/// The index of the first generated type of schema `n`.
fn type_position(types: &Vec<TypeMeta>, n: &str) -> (r: Option<usize>)
    ensures
        r matches Some(i) ==> first_match(types@, type_named(n@), i as int),
        r is None ==> forall|j: int| 0 <= j < types@.len() ==> !type_named(n@)(#[trigger] types@[j]),
{
    let mut i: usize = 0;
    while i < types.len()
        invariant
            i <= types@.len(),
            forall|j: int| 0 <= j < i ==> !type_named(n@)(#[trigger] types@[j]),
        decreases types@.len() - i,
    {
        if same_text(types[i].schema.as_str(), n) {
            return Some(i);
        }
        i += 1;
    }
    None
}

/// The index of the first path whose names are `names`.
fn path_position(paths: &Vec<PathMeta>, names: &[String]) -> (r: Option<usize>)
    ensures
        r matches Some(i) ==> first_match(paths@, path_is(path_names(names@)), i as int),
        r is None ==> forall|j: int|
            0 <= j < paths@.len() ==> !path_is(path_names(names@))(#[trigger] paths@[j]),
{
    let mut i: usize = 0;
    while i < paths.len()
        invariant
            i <= paths@.len(),
            forall|j: int| 0 <= j < i ==> !path_is(path_names(names@))(#[trigger] paths@[j]),
        decreases paths@.len() - i,
    {
        if same_path(&paths[i].path, names) {
            return Some(i);
        }
        i += 1;
    }
    None
}

/// The index of the first payload path.
fn payload_position(paths: &Vec<PathMeta>) -> (r: Option<usize>)
    ensures
        r matches Some(i) ==> first_match(paths@, is_payload_path(), i as int),
        r is None ==> forall|j: int| 0 <= j < paths@.len() ==> !is_payload_path()(#[trigger] paths@[j]),
{
    let mut i: usize = 0;
    while i < paths.len()
        invariant
            i <= paths@.len(),
            forall|j: int| 0 <= j < i ==> !is_payload_path()(#[trigger] paths@[j]),
        decreases paths@.len() - i,
    {
        match paths[i].kind {
            PathKind::Payload => {
                return Some(i);
            },
            _ => {},
        }
        i += 1;
    }
    None
}

/// The index of the first scalar-enum variant named `n`.
pub(crate) fn enum_variant_position(variants: &Vec<EnumVariant>, n: &str) -> (r: Option<usize>)
    ensures
        r matches Some(i) ==> first_match(variants@, enum_variant_named(n@), i as int),
        r is None ==> forall|j: int|
            0 <= j < variants@.len() ==> !enum_variant_named(n@)(#[trigger] variants@[j]),
{
    let mut i: usize = 0;
    while i < variants.len()
        invariant
            i <= variants@.len(),
            forall|j: int| 0 <= j < i ==> !enum_variant_named(n@)(#[trigger] variants@[j]),
        decreases variants@.len() - i,
    {
        if same_text(variants[i].name.as_str(), n) {
            return Some(i);
        }
        i += 1;
    }
    None
}

/// The index of the first tagged-union variant named `n`.
pub(crate) fn tagged_variant_position(variants: &Vec<TaggedVariant>, n: &str) -> (r: Option<usize>)
    ensures
        r matches Some(i) ==> first_match(variants@, tagged_variant_named(n@), i as int),
        r is None ==> forall|j: int|
            0 <= j < variants@.len() ==> !tagged_variant_named(n@)(#[trigger] variants@[j]),
{
    let mut i: usize = 0;
    while i < variants.len()
        invariant
            i <= variants@.len(),
            forall|j: int| 0 <= j < i ==> !tagged_variant_named(n@)(#[trigger] variants@[j]),
        decreases variants@.len() - i,
    {
        if same_text(variants[i].name.as_str(), n) {
            return Some(i);
        }
        i += 1;
    }
    None
}

impl Model {
    /// The schema named `n`; the model must declare it.
    #[verifier::spinoff_prover]
    pub fn schema(&self, n: &str) -> (r: &Schema)
        requires
            schema_of(*self, n@) is Some,
        ensures
            schema_of(*self, n@) == Some(*r),
    {
        match schema_index(&self.schemas, n) {
            Some(i) => {
                proof {
                    lemma_first_match_found(self.schemas@, schema_named(n@), i as int);
                }
                &self.schemas[i]
            },
            None => {
                proof {
                    lemma_first_match_absent(self.schemas@, schema_named(n@));
                }
                vstd::pervasive::unreached()
            },
        }
    }
}

impl LayoutMetadata {
    /// The generated type of the schema named `name`; it must exist.
    pub fn ty(&self, name: &str) -> (r: &TypeMeta)
        requires
            type_of(*self, name@) is Some,
        ensures
            type_of(*self, name@) == Some(*r),
    {
        match type_position(&self.types, name) {
            Some(i) => {
                proof {
                    lemma_first_match_found(self.types@, type_named(name@), i as int);
                }
                &self.types[i]
            },
            None => {
                proof {
                    lemma_first_match_absent(self.types@, type_named(name@));
                }
                vstd::pervasive::unreached()
            },
        }
    }

    /// The path `path` of the generated type of schema `schema`; it must exist.
    pub fn path(&self, schema: &str, path: &[String]) -> (r: &PathMeta)
        requires
            path_at(*self, schema@, path_names(path@)) is Some,
        ensures
            path_at(*self, schema@, path_names(path@)) == Some(*r),
    {
        let t = self.ty(schema);
        match path_position(&t.paths, path) {
            Some(i) => {
                proof {
                    lemma_first_match_found(t.paths@, path_is(path_names(path@)), i as int);
                }
                &t.paths[i]
            },
            None => {
                proof {
                    lemma_first_match_absent(t.paths@, path_is(path_names(path@)));
                }
                vstd::pervasive::unreached()
            },
        }
    }
}

/// The fields of the record schema named `s`.
fn record_fields_exec<'a>(m: &'a Model, s: &str) -> (r: &'a Vec<Field>)
    requires
        record_fields(*m, s@) is Some,
    ensures
        record_fields(*m, s@) == Some(r@),
{
    match &m.schema(s).kind {
        SchemaKind::Struct { fields } => fields,
        _ => vstd::pervasive::unreached(),
    }
}

/// Field `n` of the record schema named `s`.
fn field<'a>(m: &'a Model, s: &str, n: &str) -> (r: &'a Field)
    requires
        field_of(*m, s@, n@) is Some,
    ensures
        field_of(*m, s@, n@) == Some(*r),
{
    let fields = record_fields_exec(m, s);
    match field_position(fields, n) {
        Some(i) => {
            proof {
                lemma_first_match_found(fields@, field_named(n@), i as int);
            }
            &fields[i]
        },
        None => {
            proof {
                lemma_first_match_absent(fields@, field_named(n@));
            }
            vstd::pervasive::unreached()
        },
    }
}

/// The declaration index of field `n` of the record schema named `s`.
fn field_index(m: &Model, s: &str, n: &str) -> (r: usize)
    requires
        field_index_of(*m, s@, n@) is Some,
    ensures
        field_index_of(*m, s@, n@) == Some(r as int),
{
    let fields = record_fields_exec(m, s);
    match field_position(fields, n) {
        Some(i) => {
            proof {
                lemma_first_match_found(fields@, field_named(n@), i as int);
            }
            i
        },
        None => {
            proof {
                lemma_first_match_absent(fields@, field_named(n@));
            }
            vstd::pervasive::unreached()
        },
    }
}

/// The scalar enum named by field `n` of the record schema `s`.
fn enum_field<'a>(m: &'a Model, s: &str, n: &str) -> (r: &'a String)
    requires
        enum_field_of(*m, s@, n@) is Some,
    ensures
        enum_field_of(*m, s@, n@) == Some(r@),
{
    match &field(m, s, n).ty {
        Type::Schema(name) => name,
        _ => vstd::pervasive::unreached(),
    }
}

/// The representation, byte order and variants of the scalar enum named `e`.
fn scalar_enum<'a>(m: &'a Model, e: &str) -> (r: (IntWidth, Endian, &'a Vec<EnumVariant>))
    requires
        scalar_enum_of(*m, e@) is Some,
    ensures
        scalar_enum_of(*m, e@) == Some((r.0, r.1, r.2@)),
{
    match &m.schema(e).kind {
        SchemaKind::ScalarEnum { repr, endian, variants } => (*repr, *endian, variants),
        _ => vstd::pervasive::unreached(),
    }
}

/// The tagged union and tag field of the first externally tagged field of
/// the record schema `s`.
fn tagged_context(m: &Model, s: &str) -> (r: (String, String))
    requires
        tagged_context_of(*m, s@) is Some,
    ensures
        tagged_context_of(*m, s@) == Some((r.0@, r.1@)),
{
    let fields = record_fields_exec(m, s);
    match tagged_field_position(fields) {
        Some(i) => {
            proof {
                lemma_first_match_found(fields@, has_tag_field(), i as int);
            }
            let payload = &fields[i];
            match (&payload.ty, &payload.tag_field) {
                (Type::Schema(tagged), Some(tag_field)) => (tagged.clone(), tag_field.clone()),
                _ => vstd::pervasive::unreached(),
            }
        },
        None => {
            proof {
                lemma_first_match_absent(fields@, has_tag_field());
            }
            vstd::pervasive::unreached()
        },
    }
}

/// The single-field path `n` of the generated type of schema `s`.
pub(crate) fn field_path<'a>(md: &'a LayoutMetadata, s: &str, n: &String) -> (r: &'a PathMeta)
    requires
        path_of(*md, s@, n@) is Some,
    ensures
        path_of(*md, s@, n@) == Some(*r),
{
    let names = vec![n.clone()];
    assert(path_names(names@) =~= seq![n@]);
    md.path(s, names.as_slice())
}

/// The first payload path of a generated root type.
fn payload_path(root: &TypeMeta) -> (r: &PathMeta)
    requires
        find_first(root.paths@, is_payload_path()) is Some,
    ensures
        find_first(root.paths@, is_payload_path()) == Some(*r),
{
    match payload_position(&root.paths) {
        Some(i) => {
            proof {
                lemma_first_match_found(root.paths@, is_payload_path(), i as int);
            }
            &root.paths[i]
        },
        None => {
            proof {
                lemma_first_match_absent(root.paths@, is_payload_path());
            }
            vstd::pervasive::unreached()
        },
    }
}

/// The byte width of an integer representation.
pub fn iw(w: IntWidth) -> (r: u64)
    ensures
        r == int_width_bytes(w),
{
    match w {
        IntWidth::U8 => 1,
        IntWidth::U16 => 2,
        IntWidth::U32 => 4,
    }
}

/// The report code of a byte order.
pub fn en(e: Endian) -> (r: u64)
    ensures
        r == endian_code(e),
{
    match e {
        Endian::Native => 0,
        Endian::Little => 1,
        Endian::Big => 2,
    }
}

/// `alignof(decltype(<cpp>::m<index>))`.
fn member_align(cpp: &str, index: usize) -> (r: String)
    ensures
        r@ == member_align_text(cpp@, index as nat),
{
    let mut text = String::from_str("alignof(decltype(");
    text.append(cpp);
    text.append("::m");
    text.append(decimal_string(index as u64).as_str());
    text.append("))");
    text
}

/// A field's declared alignment, or the alignment of its generated member.
fn field_align(m: &Model, root: &TypeMeta, n: &str) -> (r: String)
    requires
        field_align_text(*m, *root, n@) is Some,
    ensures
        r@ == field_align_text(*m, *root, n@)->0,
{
    match field(m, root.schema.as_str(), n).align {
        Some(alignment) => decimal_string(alignment as u64),
        None => member_align(root.cpp.as_str(), field_index(m, root.schema.as_str(), n)),
    }
}

/// The size or alignment expression of the payload of variant `v` of the
/// tagged union `s`.
#[verifier::spinoff_prover]
fn variant_payload(m: &Model, md: &LayoutMetadata, s: &str, v: &str, align: bool) -> (r: String)
    requires
        variant_payload_text(*m, *md, s@, v@, align) is Some,
    ensures
        r@ == variant_payload_text(*m, *md, s@, v@, align)->0,
{
    let variants = match &m.schema(s).kind {
        SchemaKind::TaggedEnum { variants, .. } => variants,
        _ => vstd::pervasive::unreached(),
    };
    let index = match tagged_variant_position(variants, v) {
        Some(i) => {
            proof {
                lemma_first_match_found(variants@, tagged_variant_named(v@), i as int);
            }
            i
        },
        None => {
            proof {
                lemma_first_match_absent(variants@, tagged_variant_named(v@));
            }
            vstd::pervasive::unreached()
        },
    };
    match &variants[index].payload {
        None => String::from_str("1"),
        Some(p) => {
            let t = md.ty(p.as_str());
            if align {
                t.align_expr.clone()
            } else {
                t.size_expr.clone()
            }
        },
    }
}

/// Renders metric `x` of the generated root type `root` as the C++ constant
/// expression the layout report emits for it. The model and metadata must
/// describe everything the metric names.
#[verifier::spinoff_prover]
pub fn metric_expr(m: &Model, md: &LayoutMetadata, root: &TypeMeta, x: &Metric) -> (r: String)
    requires
        metric_text(*m, *md, *root, *x) is Some,
    ensures
        r@ == metric_text(*m, *md, *root, *x)->0,
{
    let s = root.schema.as_str();
    match x {
        Metric::RootSize | Metric::RootStride => root.size_expr.clone(),
        Metric::RootAlign => root.align_expr.clone(),
        Metric::FieldOffset(n) => field_path(md, s, n).offset_expr.clone(),
        Metric::FieldSize(n) => field_path(md, s, n).width_expr.clone(),
        Metric::FieldAlign(n) => field_align(m, root, n.as_str()),
        Metric::ArrayLength(n) => match &field(m, s, n.as_str()).ty {
            Type::Array { length, .. } => decimal_string(*length as u64),
            _ => vstd::pervasive::unreached(),
        },
        Metric::ArrayStride(n) => match &field_path(md, s, n).array_stride_expr {
            Some(stride) => stride.clone(),
            None => vstd::pervasive::unreached(),
        },
        Metric::OptionalSpan(n) => field_path(md, s, n).width_expr.clone(),
        Metric::OptionalIsOptional(n) => {
            if field_path(md, s, n).optional {
                String::from_str("1")
            } else {
                String::from_str("0")
            }
        },
        Metric::OptionalArrayLength(n) => {
            let p = field_path(md, s, n);
            match p.array_length {
                Some(length) => decimal_string(length as u64),
                None => vstd::pervasive::unreached(),
            }
        },
        Metric::OptionalArrayStride(n) => {
            let p = field_path(md, s, n);
            match &p.array_stride_expr {
                Some(stride) => stride.clone(),
                None => vstd::pervasive::unreached(),
            }
        },
        Metric::EnumSize(n) => {
            let e = enum_field(m, s, n.as_str());
            md.ty(e.as_str()).size_expr.clone()
        },
        Metric::EnumAlign(n) => {
            let e = enum_field(m, s, n.as_str());
            md.ty(e.as_str()).align_expr.clone()
        },
        Metric::EnumWidth(n) => {
            let e = enum_field(m, s, n.as_str());
            let (repr, _, _) = scalar_enum(m, e.as_str());
            decimal_string(iw(repr))
        },
        Metric::EnumEndian(n) => {
            let e = enum_field(m, s, n.as_str());
            let (_, endian, _) = scalar_enum(m, e.as_str());
            decimal_string(en(endian))
        },
        Metric::EnumRaw(n) => {
            let e = enum_field(m, s, n.as_str());
            let (_, _, variants) = scalar_enum(m, e.as_str());
            decimal_string(variants[0].raw)
        },
        Metric::StringEncoding(n) => match field(m, s, n.as_str()).ty {
            Type::String(StringKind::Utf8) => String::from_str("1"),
            Type::String(StringKind::CBytes) => String::from_str("2"),
            Type::String(StringKind::U16) => String::from_str("3"),
            Type::String(StringKind::U16C) => String::from_str("4"),
            _ => vstd::pervasive::unreached(),
        },
        Metric::StringCapacity(n) => match field(m, s, n.as_str()).capacity {
            Some(capacity) => decimal_string(capacity as u64),
            None => vstd::pervasive::unreached(),
        },
        Metric::StringUnitWidth(n) => decimal_string(field_path(md, s, n).unit_width as u64),
        Metric::StringDataOffset(n) => {
            let p = field_path(md, s, n);
            match &p.data_offset_expr {
                Some(data) => {
                    let mut text = String::from_str("(");
                    text.append(data.as_str());
                    text.append(")-(");
                    text.append(p.offset_expr.as_str());
                    text.append(")");
                    text
                },
                None => vstd::pervasive::unreached(),
            }
        },
        Metric::StringLengthWidth(n) => match field(m, s, n.as_str()).len {
            Some((w, _)) => decimal_string(iw(w)),
            None => String::from_str("0"),
        },
        Metric::StringLengthEndian(n) => match field(m, s, n.as_str()).len {
            Some((_, e)) => decimal_string(en(e)),
            None => String::from_str("0"),
        },
        Metric::StringLengthOffset(_) => String::from_str("0"),
        Metric::TagOffset => {
            let (_, tag_field) = tagged_context(m, s);
            field_path(md, s, &tag_field).offset_expr.clone()
        },
        Metric::PayloadOffset => payload_path(root).offset_expr.clone(),
        Metric::PayloadSize => payload_path(root).width_expr.clone(),
        Metric::PayloadAlign => {
            let p = payload_path(root);
            field_align(m, root, p.path[0].as_str())
        },
        Metric::TagSize => {
            let (_, tag_field) = tagged_context(m, s);
            field_path(md, s, &tag_field).width_expr.clone()
        },
        Metric::TagAlign => {
            let (_, tag_field) = tagged_context(m, s);
            member_align(root.cpp.as_str(), field_index(m, s, tag_field.as_str()))
        },
        Metric::TagEndian => {
            let (tagged, _) = tagged_context(m, s);
            match &m.schema(tagged.as_str()).kind {
                SchemaKind::TaggedEnum { tag, .. } => {
                    let (_, endian, _) = scalar_enum(m, tag.as_str());
                    decimal_string(en(endian))
                },
                _ => vstd::pervasive::unreached(),
            }
        },
        Metric::VariantRaw(v) => {
            let (tagged, _) = tagged_context(m, s);
            match &m.schema(tagged.as_str()).kind {
                SchemaKind::TaggedEnum { tag, .. } => {
                    let (_, _, variants) = scalar_enum(m, tag.as_str());
                    match enum_variant_position(variants, v.as_str()) {
                        Some(i) => {
                            proof {
                                lemma_first_match_found(
                                    variants@,
                                    enum_variant_named(v@),
                                    i as int,
                                );
                            }
                            decimal_string(variants[i].raw)
                        },
                        None => {
                            proof {
                                lemma_first_match_absent(variants@, enum_variant_named(v@));
                            }
                            vstd::pervasive::unreached()
                        },
                    }
                },
                _ => vstd::pervasive::unreached(),
            }
        },
        Metric::VariantPayloadSize(v) => {
            let (tagged, _) = tagged_context(m, s);
            variant_payload(m, md, tagged.as_str(), v.as_str(), false)
        },
        Metric::VariantPayloadAlign(v) => {
            let (tagged, _) = tagged_context(m, s);
            variant_payload(m, md, tagged.as_str(), v.as_str(), true)
        },
    }
}

/// A copy of an optional string.
fn copy_opt(o: &Option<String>) -> (r: Option<String>)
    ensures
        opt_view(r) == opt_view(*o),
{
    match o {
        Some(text) => Some(text.clone()),
        None => None,
    }
}

/// A copy of a path kind.
fn copy_kind(k: &PathKind) -> (r: PathKind)
    ensures
        r == *k,
{
    match k {
        PathKind::Scalar => PathKind::Scalar,
        PathKind::Bool => PathKind::Bool,
        PathKind::String(kind) => PathKind::String(*kind),
        PathKind::FixedBytes => PathKind::FixedBytes,
        PathKind::Array => PathKind::Array,
        PathKind::Nested => PathKind::Nested,
        PathKind::Tag => PathKind::Tag,
        PathKind::Payload => PathKind::Payload,
    }
}

/// A copy of a list of names.
fn copy_names(names: &[String]) -> (r: Vec<String>)
    ensures
        path_names(r@) == path_names(names@),
{
    let mut out: Vec<String> = Vec::new();
    let mut i: usize = 0;
    while i < names.len()
        invariant
            i <= names@.len(),
            out@.len() == i,
            forall|k: int| 0 <= k < i ==> out@[k]@ == names@[k]@,
        decreases names@.len() - i,
    {
        out.push(names[i].clone());
        i += 1;
    }
    assert(path_names(out@) =~= path_names(names@));
    out
}

/// `(<a>)+(<b>)`.
fn sum_expr(a: &str, b: &str) -> (r: String)
    ensures
        r@ == sum_text(a@, b@),
{
    let mut text = String::from_str("(");
    text.append(a);
    text.append(")+(");
    text.append(b);
    text.append(")");
    text
}

/// The byte order and width of a path found directly in the metadata.
#[verifier::spinoff_prover]
fn adjusted(m: &Model, schema: &str, path: &[String], found: &PathMeta) -> (r: (Endian, String))
    requires
        adjusted_order_width(*m, schema@, path_names(path@), *found) is Some,
    ensures
        adjusted_order_width(*m, schema@, path_names(path@), *found) == Some((r.0, r.1@)),
{
    if path.len() != 1 {
        return (found.endian, found.width_expr.clone());
    }
    match &m.schema(schema).kind {
        SchemaKind::Struct { fields } => match field_position(fields, path[0].as_str()) {
            Some(i) => {
                proof {
                    lemma_first_match_found(fields@, field_named(path@[0]@), i as int);
                }
                let stored = match &fields[i].ty {
                    Type::Option(inner) => &**inner,
                    other => other,
                };
                match stored {
                    Type::Schema(child) => match &m.schema(child.as_str()).kind {
                        SchemaKind::ScalarEnum { repr, endian, .. } => (*endian, decimal_string(iw(*repr))),
                        _ => (found.endian, found.width_expr.clone()),
                    },
                    _ => (found.endian, found.width_expr.clone()),
                }
            },
            None => {
                proof {
                    lemma_first_match_absent(fields@, field_named(path@[0]@));
                }
                (found.endian, found.width_expr.clone())
            },
        },
        _ => (found.endian, found.width_expr.clone()),
    }
}

/// The path metadata of `path` from schema `schema`, resolved through
/// nested records, external tags and union payloads as `resolved` states.
#[verifier::spinoff_prover]
pub fn resolved_meta(model: &Model, layout: &LayoutOutput, schema: &str, path: &[String]) -> (r: PathMeta)
    requires
        resolved(*model, layout.metadata, schema@, path_names(path@)) is Some,
    ensures
        describes(
            r,
            resolved(*model, layout.metadata, schema@, path_names(path@))->0,
            resolved_schema(layout.metadata, schema@, path_names(path@)),
            path_names(path@),
        ),
    decreases path@.len(),
{
    let md = &layout.metadata;
    let t = md.ty(schema);
    match path_position(&t.paths, path) {
        Some(i) => {
            proof {
                lemma_first_match_found(t.paths@, path_is(path_names(path@)), i as int);
            }
            let found = &t.paths[i];
            let (endian, width) = adjusted(model, schema, path, found);
            return PathMeta {
                schema: found.schema.clone(),
                path: copy_names(found.path.as_slice()),
                offset_expr: found.offset_expr.clone(),
                width_expr: width,
                endian,
                kind: copy_kind(&found.kind),
                data_offset_expr: copy_opt(&found.data_offset_expr),
                len_offset_expr: copy_opt(&found.len_offset_expr),
                len_width: found.len_width,
                capacity: found.capacity,
                len_endian: found.len_endian,
                unit_width: found.unit_width,
                array_length: found.array_length,
                array_stride_expr: copy_opt(&found.array_stride_expr),
                optional: found.optional,
            };
        },
        None => {
            proof {
                lemma_first_match_absent(t.paths@, path_is(path_names(path@)));
            }
        },
    }
    match &model.schema(schema).kind {
        SchemaKind::Struct { fields } => {
            let f = match field_position(fields, path[0].as_str()) {
                Some(i) => {
                    proof {
                        lemma_first_match_found(fields@, field_named(path@[0]@), i as int);
                    }
                    &fields[i]
                },
                None => {
                    proof {
                        lemma_first_match_absent(fields@, field_named(path@[0]@));
                    }
                    vstd::pervasive::unreached()
                },
            };
            let head = field_path(md, schema, &path[0]);
            let stored = match &f.ty {
                Type::Option(inner) => &**inner,
                other => other,
            };
            let child = match stored {
                Type::Schema(child) => child,
                _ => vstd::pervasive::unreached(),
            };
            let tail = if f.tag_field.is_some() {
                let variants = match &model.schema(child.as_str()).kind {
                    SchemaKind::TaggedEnum { variants, .. } => variants,
                    _ => vstd::pervasive::unreached(),
                };
                let selected = match tagged_variant_position(variants, path[1].as_str()) {
                    Some(k) => {
                        proof {
                            lemma_first_match_found(variants@, tagged_variant_named(path@[1]@), k as int);
                        }
                        &variants[k]
                    },
                    None => {
                        proof {
                            lemma_first_match_absent(variants@, tagged_variant_named(path@[1]@));
                        }
                        vstd::pervasive::unreached()
                    },
                };
                let payload = match &selected.payload {
                    Some(payload) => payload,
                    None => vstd::pervasive::unreached(),
                };
                let (_, rest) = path.split_at(2);
                assert(rest@ =~= path@.subrange(2, path@.len() as int));
                assert(path_names(rest@) =~= path_names(path@).subrange(2, path@.len() as int));
                resolved_meta(model, layout, payload.as_str(), rest)
            } else {
                let (_, rest) = path.split_at(1);
                assert(rest@ =~= path@.subrange(1, path@.len() as int));
                assert(path_names(rest@) =~= path_names(path@).subrange(1, path@.len() as int));
                resolved_meta(model, layout, child.as_str(), rest)
            };
            let data_offset_expr = match &tail.data_offset_expr {
                Some(x) => Some(sum_expr(head.offset_expr.as_str(), x.as_str())),
                None => None,
            };
            let len_offset_expr = match &tail.len_offset_expr {
                Some(x) => Some(sum_expr(head.offset_expr.as_str(), x.as_str())),
                None => None,
            };
            PathMeta {
                schema: String::from_str(schema),
                path: copy_names(path),
                offset_expr: sum_expr(head.offset_expr.as_str(), tail.offset_expr.as_str()),
                width_expr: tail.width_expr,
                endian: tail.endian,
                kind: tail.kind,
                data_offset_expr,
                len_offset_expr,
                len_width: tail.len_width,
                capacity: tail.capacity,
                len_endian: tail.len_endian,
                unit_width: tail.unit_width,
                array_length: tail.array_length,
                array_stride_expr: tail.array_stride_expr,
                optional: tail.optional,
            }
        },
        SchemaKind::TaggedEnum { variants, .. } => {
            let v = match tagged_variant_position(variants, path[0].as_str()) {
                Some(k) => {
                    proof {
                        lemma_first_match_found(variants@, tagged_variant_named(path@[0]@), k as int);
                    }
                    &variants[k]
                },
                None => {
                    proof {
                        lemma_first_match_absent(variants@, tagged_variant_named(path@[0]@));
                    }
                    vstd::pervasive::unreached()
                },
            };
            let child = match &v.payload {
                Some(child) => child,
                None => vstd::pervasive::unreached(),
            };
            let pm = payload_path(t);
            let (_, rest) = path.split_at(1);
            assert(rest@ =~= path@.subrange(1, path@.len() as int));
            assert(path_names(rest@) =~= path_names(path@).subrange(1, path@.len() as int));
            let tail = resolved_meta(model, layout, child.as_str(), rest);
            PathMeta {
                schema: String::from_str(schema),
                path: copy_names(path),
                offset_expr: sum_expr(pm.offset_expr.as_str(), tail.offset_expr.as_str()),
                width_expr: tail.width_expr,
                endian: tail.endian,
                kind: tail.kind,
                data_offset_expr: tail.data_offset_expr,
                len_offset_expr: tail.len_offset_expr,
                len_width: tail.len_width,
                capacity: tail.capacity,
                len_endian: tail.len_endian,
                unit_width: tail.unit_width,
                array_length: tail.array_length,
                array_stride_expr: tail.array_stride_expr,
                optional: tail.optional,
            }
        },
        _ => vstd::pervasive::unreached(),
    }
}

/// The C++ name of a byte order.
pub(crate) fn endian(e: Endian) -> (r: &'static str)
    ensures
        r@ == endian_word(e),
{
    match e {
        Endian::Native => "E_NATIVE",
        Endian::Little => "E_LITTLE",
        Endian::Big => "E_BIG",
    }
}

/// The presence variable of an observed optional field.
fn optional_presence_var(model: &Model, schema: &str, path: &Vec<String>) -> (r: String)
    requires
        presence_var_text(*model, schema@, path@) is Some,
    ensures
        r@ == presence_var_text(*model, schema@, path@)->0,
{
    let fields = record_fields_exec(model, schema);
    let index = match field_position(fields, path[0].as_str()) {
        Some(i) => {
            proof {
                lemma_first_match_found(fields@, field_named(path@[0]@), i as int);
            }
            i
        },
        None => {
            proof {
                lemma_first_match_absent(fields@, field_named(path@[0]@));
            }
            vstd::pervasive::unreached()
        },
    };
    let mut text = String::from_str("optional_m");
    text.append(decimal_string(index as u64).as_str());
    text
}

/// `get_bits(in,input_len,<pos>, <width>, <order>, &value)`.
fn get_bits(pos: &str, width: &str, order: &str) -> (r: String)
    ensures
        r@ == get_bits_text(pos@, width@, order@),
{
    let mut text = String::from_str("get_bits(in,input_len,");
    text.append(pos);
    text.append(", ");
    text.append(width);
    text.append(", ");
    text.append(order);
    text.append(", &value)");
    text
}

/// `(<inner>)`.
fn parenthesized(inner: &str) -> (r: String)
    ensures
        r@ == "("@ + inner@ + ")"@,
{
    let mut text = String::from_str("(");
    text.append(inner);
    text.append(")");
    text
}

/// Renders the C++ expression with which the generated inspector reads
/// observation `o` of a root of schema `schema` into `value`. The model and
/// layout must describe everything the observation names.
#[verifier::spinoff_prover]
pub fn obs_expr(model: &Model, layout: &LayoutOutput, schema: &str, o: &Observation) -> (r: String)
    requires
        observation_text(*model, *layout, schema@, *o) is Some,
    ensures
        r@ == observation_text(*model, *layout, schema@, *o)->0,
{
    if let Observation::Optional(path) = o {
        let presence = optional_presence_var(model, schema, path);
        let mut text = String::from_str("(value=");
        text.append(presence.as_str());
        text.append("?UINT64_C(1):UINT64_C(0),true)");
        return text;
    }
    let path = match o {
        Observation::Scalar(p) => p,
        Observation::Tag(p) => p,
        Observation::Length(p) => p,
        Observation::Unit(p, _) => p,
        Observation::Element(p, _) => p,
        Observation::Optional(p) => p,
    };
    let effective: Vec<String> = match o {
        Observation::Tag(_) => {
            let fields = record_fields_exec(model, schema);
            let payload = match field_position(fields, path[0].as_str()) {
                Some(i) => {
                    proof {
                        lemma_first_match_found(fields@, field_named(path@[0]@), i as int);
                    }
                    &fields[i]
                },
                None => {
                    proof {
                        lemma_first_match_absent(fields@, field_named(path@[0]@));
                    }
                    vstd::pervasive::unreached()
                },
            };
            match &payload.tag_field {
                Some(tag) => vec![tag.clone()],
                None => vstd::pervasive::unreached(),
            }
        },
        _ => copy_names(path.as_slice()),
    };
    let ghost expected = effective_path(*model, schema@, *o)->0;
    proof {
        assert(path_names(effective@) =~= expected);
    }
    let m = resolved_meta(model, layout, schema, effective.as_slice());
    let unit = decimal_string(m.unit_width as u64);
    match o {
        Observation::Length(_) => match m.len_width {
            Some(w) => {
                let pos = match &m.len_offset_expr {
                    Some(lo) => parenthesized(lo.as_str()),
                    None => vstd::pervasive::unreached(),
                };
                let order = match m.len_endian {
                    Some(le) => endian(le),
                    None => vstd::pervasive::unreached(),
                };
                get_bits(pos.as_str(), decimal_string(iw(w)).as_str(), order)
            },
            None => {
                let pos = match &m.data_offset_expr {
                    Some(d) => parenthesized(d.as_str()),
                    None => vstd::pervasive::unreached(),
                };
                let capacity = match m.capacity {
                    Some(c) => c,
                    None => vstd::pervasive::unreached(),
                };
                let mut text = String::from_str("c_length(in,input_len,");
                text.append(pos.as_str());
                text.append(", ");
                text.append(decimal_string(capacity as u64).as_str());
                text.append(", ");
                text.append(unit.as_str());
                text.append(", ");
                text.append(endian(m.endian));
                text.append(", &value)");
                text
            },
        },
        Observation::Unit(_, index) => {
            let data = match &m.data_offset_expr {
                Some(d) => d.as_str(),
                None => m.offset_expr.as_str(),
            };
            let order = match m.kind {
                PathKind::String(StringKind::U16) => Endian::Native,
                PathKind::String(StringKind::U16C) => Endian::Native,
                _ => m.endian,
            };
            let a: u64 = *index as u64;
            let b: u64 = m.unit_width as u64;
            assert(a * b <= 0xffff_ffff_ffff_ffff) by (nonlinear_arith)
                requires
                    a <= 0xffff_ffff,
                    b <= 0xffff_ffff,
            ;
            let scaled: u64 = a * b;
            let mut pos = String::from_str("checked_add((");
            pos.append(data);
            pos.append("),UINT64_C(");
            pos.append(decimal_string(scaled).as_str());
            pos.append("),&scratch)");
            get_bits(pos.as_str(), unit.as_str(), endian(order))
        },
        Observation::Element(_, index) => {
            let stride = match &m.array_stride_expr {
                Some(stride) => stride,
                None => vstd::pervasive::unreached(),
            };
            let mut pos = String::from_str("checked_add((");
            pos.append(m.offset_expr.as_str());
            pos.append("),UINT64_C(");
            pos.append(decimal_string(*index as u64).as_str());
            pos.append(")*(");
            pos.append(stride.as_str());
            pos.append("),&scratch)");
            get_bits(pos.as_str(), unit.as_str(), endian(m.endian))
        },
        _ => get_bits(parenthesized(m.offset_expr.as_str()).as_str(), unit.as_str(), endian(m.endian)),
    }
}

/// The C++ name and byte width of a primitive.
fn primitive(p: Primitive) -> (r: (&'static str, u32))
    ensures
        primitive_spec(p) == (r.0@, r.1 as nat),
{
    match p {
        Primitive::U8 => ("std::uint8_t", 1),
        Primitive::I8 => ("std::int8_t", 1),
        Primitive::U16 => ("std::uint16_t", 2),
        Primitive::I16 => ("std::int16_t", 2),
        Primitive::U32 => ("std::uint32_t", 4),
        Primitive::I32 => ("std::int32_t", 4),
        Primitive::U64 => ("std::uint64_t", 8),
        Primitive::I64 => ("std::int64_t", 8),
        Primitive::F32 => ("float", 4),
        Primitive::F64 => ("double", 8),
    }
}

/// The unsigned C++ integer of a byte width.
fn raw_primitive(width: u32) -> (r: &'static str)
    requires
        raw_primitive_spec(width as nat) is Some,
    ensures
        raw_primitive_spec(width as nat) == Some(r@),
{
    if width == 1 {
        "std::uint8_t"
    } else if width == 2 {
        "std::uint16_t"
    } else if width == 4 {
        "std::uint32_t"
    } else {
        "std::uint64_t"
    }
}

/// `((a) > (b) ? (a) : (b))`.
pub fn max_expr(a: &str, b: &str) -> (r: String)
    ensures
        r@ == max_text(a@, b@),
{
    let mut text = String::from_str("((");
    text.append(a);
    text.append(") > (");
    text.append(b);
    text.append(") ? (");
    text.append(a);
    text.append(") : (");
    text.append(b);
    text.append("))");
    text
}

/// The C++ layout generator: the model, the C++ type name of each schema,
/// the helpers named so far, and the declarations, assertions and type
/// metadata generated so far.
pub struct Gen<'a> {
    pub m: &'a Model,
    pub names: Vec<(String, String)>,
    pub helpers: usize,
    pub decl: String,
    pub asserts: String,
    pub metas: Vec<TypeMeta>,
}

impl<'a> Gen<'a> {
    /// The generator's text state.
    pub open spec fn state(&self) -> GenState {
        (self.helpers as nat, self.decl@, self.asserts@)
    }

    /// Whether `other` has this generator's model, names and metadata.
    pub open spec fn same_context(&self, other: Gen<'a>) -> bool {
        &&& *self.m == *other.m
        &&& self.names@ == other.names@
        &&& self.metas@ == other.metas@
    }

    /// Names the next helper `z<n>`.
    pub fn fresh(&mut self) -> (r: String)
        requires
            old(self).helpers < usize::MAX,
        ensures
            r@ == helper_name(old(self).helpers as nat),
            final(self).state() == ((old(self).helpers + 1) as nat, old(self).decl@, old(self).asserts@),
            final(self).same_context(*old(self)),
    {
        let mut n = String::from_str("z");
        n.append(decimal_string(self.helpers as u64).as_str());
        self.helpers = self.helpers + 1;
        n
    }

    /// The C++ type name of the schema named `n`.
    #[verifier::spinoff_prover]
    pub fn typename(&self, n: &str) -> (r: String)
        requires
            typename_of(self.names@, n@) is Some,
        ensures
            typename_of(self.names@, n@) == Some(r@),
    {
        let mut i: usize = 0;
        while i < self.names.len()
            invariant
                i <= self.names@.len(),
                forall|j: int|
                    0 <= j < i ==> !(|e: (String, String)| e.0@ == n@)(#[trigger] self.names@[j]),
            decreases self.names@.len() - i,
        {
            if same_text(self.names[i].0.as_str(), n) {
                proof {
                    lemma_first_match_found(self.names@, |e: (String, String)| e.0@ == n@, i as int);
                }
                return self.names[i].1.clone();
            }
            i += 1;
        }
        proof {
            lemma_first_match_absent(self.names@, |e: (String, String)| e.0@ == n@);
        }
        vstd::pervasive::unreached()
    }

    /// A raw storage type of `width` bytes in byte order `e`.
    #[verifier::spinoff_prover]
    pub fn raw(&mut self, width: u32, e: Endian) -> (r: String)
        requires
            raw_primitive_spec(width as nat) is Some,
            old(self).helpers < usize::MAX,
        ensures
            raw_spec(old(self).state(), width as nat, e) == Some((r@, final(self).state())),
            final(self).same_context(*old(self)),
            final(self).helpers <= old(self).helpers + 1,
    {
        let primitive = raw_primitive(width);
        let native = match e {
            Endian::Native => true,
            _ => false,
        };
        if width == 1 || native {
            return String::from_str(primitive);
        }
        let n = self.fresh();
        let mut align = String::from_str("alignof(");
        align.append(primitive);
        align.append(")");
        let w = decimal_string(width as u64);
        self.decl.append("struct alignas(");
        self.decl.append(align.as_str());
        self.decl.append(") ");
        self.decl.append(n.as_str());
        self.decl.append(" { std::uint8_t m0[");
        self.decl.append(w.as_str());
        self.decl.append("]; };\n");
        self.asserts.append("static_assert(sizeof(");
        self.asserts.append(n.as_str());
        self.asserts.append(")==");
        self.asserts.append(w.as_str());
        self.asserts.append(" && alignof(");
        self.asserts.append(n.as_str());
        self.asserts.append(")==");
        self.asserts.append(align.as_str());
        self.asserts.append(");\n");
        n
    }

    /// The C++ type and unit width of a fixed-array element.
    #[verifier::spinoff_prover]
    pub fn array_element_type(&mut self, element: &Type, e: Endian) -> (r: (String, u32))
        requires
            element_type_spec(*old(self).m, old(self).names@, old(self).state(), *element, e) is Some,
            old(self).helpers < usize::MAX,
        ensures
            element_type_spec(*old(self).m, old(self).names@, old(self).state(), *element, e)
                == Some((r.0@, r.1 as nat, final(self).state())),
            final(self).same_context(*old(self)),
            final(self).helpers <= old(self).helpers + 1,
        decreases element,
    {
        match element {
            Type::Primitive(value) => {
                let (base, width) = primitive(*value);
                let native = match e {
                    Endian::Native => true,
                    _ => false,
                };
                if width == 1 || native {
                    (String::from_str(base), width)
                } else {
                    (self.raw(width, e), width)
                }
            },
            Type::Bool => (String::from_str("std::uint8_t"), 1),
            Type::Schema(name) => {
                let m = self.m;
                match &m.schema(name.as_str()).kind {
                    SchemaKind::ScalarEnum { repr, endian, .. } => {
                        let w = iw(*repr) as u32;
                        (self.raw(w, *endian), w)
                    },
                    SchemaKind::Struct { .. } => (self.typename(name.as_str()), 1),
                    SchemaKind::TaggedEnum { .. } => vstd::pervasive::unreached(),
                }
            },
            Type::Option(inner) => self.array_element_type(&**inner, e),
            _ => vstd::pervasive::unreached(),
        }
    }
}

impl<'a> Gen<'a> {
    /// Lowers a string field's storage.
    #[verifier::spinoff_prover]
    fn lower_string(&mut self, f: &Field, k: StringKind) -> (r: (
        String,
        PathKind,
        u32,
        Option<String>,
        Option<String>,
        Option<IntWidth>,
    ))
        requires
            stored_type(f.ty) == Type::String(k),
            lowered_core(*old(self).m, old(self).names@, old(self).state(), *f) is Some,
            old(self).helpers + 2 <= usize::MAX,
        ensures
            lowered_core(*old(self).m, old(self).names@, old(self).state(), *f) == Some(
                (r.0@, r.1, r.2 as nat, opt_view(r.3), opt_view(r.4), r.5, final(self).state()),
            ),
            final(self).same_context(*old(self)),
            final(self).helpers <= old(self).helpers + 2,
    {
        let cap = match f.capacity {
            Some(cap) => cap,
            None => vstd::pervasive::unreached(),
        };
        let terminated = match k {
            StringKind::CBytes => true,
            StringKind::U16C => true,
            _ => false,
        };
        let wide_terminated = match k {
            StringKind::U16C => true,
            _ => false,
        };
        if terminated {
            let h = self.fresh();
            let dt = if wide_terminated {
                "std::uint16_t"
            } else {
                "std::uint8_t"
            };
            self.decl.append("struct ");
            self.decl.append(h.as_str());
            self.decl.append(" { ");
            self.decl.append(dt);
            self.decl.append(" m0[");
            self.decl.append(decimal_string(cap as u64).as_str());
            self.decl.append("]; };\n");
            let unit: u32 = if wide_terminated {
                2
            } else {
                1
            };
            (h, PathKind::String(k), unit, Some(String::from_str("0")), None, None)
        } else {
            let (lw, le) = match f.len {
                Some(len) => len,
                None => vstd::pervasive::unreached(),
            };
            let wide = match k {
                StringKind::U16 => true,
                _ => false,
            };
            let h = self.fresh();
            let lt = self.raw(iw(lw) as u32, le);
            let dt = if wide {
                "std::uint16_t"
            } else {
                "std::uint8_t"
            };
            self.decl.append("struct ");
            self.decl.append(h.as_str());
            self.decl.append(" { ");
            self.decl.append(lt.as_str());
            self.decl.append(" m0; ");
            self.decl.append(dt);
            self.decl.append(" m1[");
            self.decl.append(decimal_string(cap as u64).as_str());
            self.decl.append("]; };\n");
            self.asserts.append("static_assert(offsetof(");
            self.asserts.append(h.as_str());
            self.asserts.append(",m0)==0 && offsetof(");
            self.asserts.append(h.as_str());
            self.asserts.append(",m1)>=sizeof(");
            self.asserts.append(lt.as_str());
            self.asserts.append("));\n");
            let mut data = String::from_str("offsetof(");
            data.append(h.as_str());
            data.append(",m1)");
            let unit: u32 = if wide {
                2
            } else {
                1
            };
            (h, PathKind::String(k), unit, Some(data), Some(String::from_str("0")), Some(lw))
        }
    }

    /// Lowers the stored type of field `f` before any alignment wrapper.
    #[verifier::spinoff_prover]
    fn lower_core(&mut self, f: &Field) -> (r: (
        String,
        PathKind,
        u32,
        Option<String>,
        Option<String>,
        Option<IntWidth>,
    ))
        requires
            lowered_core(*old(self).m, old(self).names@, old(self).state(), *f) is Some,
            old(self).helpers + 2 <= usize::MAX,
        ensures
            lowered_core(*old(self).m, old(self).names@, old(self).state(), *f) == Some(
                (r.0@, r.1, r.2 as nat, opt_view(r.3), opt_view(r.4), r.5, final(self).state()),
            ),
            final(self).same_context(*old(self)),
            final(self).helpers <= old(self).helpers + 2,
    {
        let field_ty = match &f.ty {
            Type::Option(inner) => &**inner,
            other => other,
        };
        let native = match f.endian {
            Endian::Native => true,
            _ => false,
        };
        match field_ty {
            Type::Primitive(p) => {
                let (base, w) = primitive(*p);
                let t = if w == 1 || native {
                    String::from_str(base)
                } else {
                    self.raw(w, f.endian)
                };
                (t, PathKind::Scalar, w, None, None, None)
            },
            Type::Bool => (String::from_str("std::uint8_t"), PathKind::Bool, 1, None, None, None),
            Type::FixedBytes(n) => {
                let h = self.fresh();
                self.decl.append("struct ");
                self.decl.append(h.as_str());
                self.decl.append(" { std::uint8_t m0[");
                self.decl.append(decimal_string(*n as u64).as_str());
                self.decl.append("]; };\n");
                (h, PathKind::FixedBytes, 1, None, None, None)
            },
            Type::Array { element, length } => {
                let (element_type, width) = self.array_element_type(&**element, f.endian);
                let h = self.fresh();
                self.decl.append("struct ");
                self.decl.append(h.as_str());
                self.decl.append(" { ");
                self.decl.append(element_type.as_str());
                self.decl.append(" m0[");
                self.decl.append(decimal_string(*length as u64).as_str());
                self.decl.append("]; };\n");
                (h, PathKind::Array, width, None, None, None)
            },
            Type::Schema(n) => {
                let m = self.m;
                match &m.schema(n.as_str()).kind {
                    SchemaKind::ScalarEnum { repr, endian, .. } => {
                        let w = iw(*repr) as u32;
                        (self.raw(w, *endian), PathKind::Scalar, w, None, None, None)
                    },
                    SchemaKind::TaggedEnum { .. } => {
                        let kind = if f.tag_field.is_some() {
                            PathKind::Payload
                        } else {
                            PathKind::Nested
                        };
                        (self.typename(n.as_str()), kind, 1, None, None, None)
                    },
                    SchemaKind::Struct { .. } => (
                        self.typename(n.as_str()),
                        PathKind::Nested,
                        1,
                        None,
                        None,
                        None,
                    ),
                }
            },
            Type::String(k) => self.lower_string(f, *k),
            Type::Option(_) => vstd::pervasive::unreached(),
        }
    }

    /// Wraps a lowered field in its declared alignment, if any.
    #[verifier::spinoff_prover]
    fn align_wrap(&mut self, f: &Field, ty: String) -> (r: String)
        requires
            old(self).helpers < usize::MAX,
        ensures
            aligned_type(*f, ty@, old(self).state()) == (r@, final(self).state()),
            final(self).same_context(*old(self)),
            final(self).helpers <= old(self).helpers + 1,
    {
        match f.align {
            Some(a) => {
                let w = self.fresh();
                let mut own = String::from_str("alignof(");
                own.append(ty.as_str());
                own.append(")");
                let al = max_expr(decimal_string(a as u64).as_str(), own.as_str());
                self.decl.append("struct alignas(");
                self.decl.append(al.as_str());
                self.decl.append(") ");
                self.decl.append(w.as_str());
                self.decl.append(" { ");
                self.decl.append(ty.as_str());
                self.decl.append(" m0; };\n");
                self.asserts.append("static_assert(alignof(");
                self.asserts.append(w.as_str());
                self.asserts.append(")==");
                self.asserts.append(al.as_str());
                self.asserts.append(" && sizeof(");
                self.asserts.append(w.as_str());
                self.asserts.append(")%alignof(");
                self.asserts.append(w.as_str());
                self.asserts.append(")==0 && offsetof(");
                self.asserts.append(w.as_str());
                self.asserts.append(",m0)==0);\n");
                w
            },
            None => ty,
        }
    }

    /// Lowers field `f`, the `index`-th field of record schema `schema`, to
    /// its C++ member name, member type and path metadata, declaring the
    /// helpers its storage needs.
    #[verifier::spinoff_prover]
    pub fn lower_field(&mut self, schema: &str, index: usize, f: &Field) -> (r: (String, String, PathMeta))
        requires
            lowered_core(*old(self).m, old(self).names@, old(self).state(), *f) is Some,
            typename_of(old(self).names@, schema@) is Some,
            old(self).helpers + 3 <= usize::MAX,
        ensures
            final(self).same_context(*old(self)),
            final(self).helpers <= old(self).helpers + 3,
            final(self).state() == lowered_type(*old(self).m, old(self).names@, old(self).state(), *f).1,
            r.0@ == "m"@ + decimal_text(index as nat),
            r.1@ == lowered_type(*old(self).m, old(self).names@, old(self).state(), *f).0,
            field_meta_describes(r.2, *old(self).m, old(self).names@, old(self).state(), schema@, index as nat, *f),
    {
        let mut member = String::from_str("m");
        member.append(decimal_string(index as u64).as_str());
        let optional = match &f.ty {
            Type::Option(_) => true,
            _ => false,
        };
        let (ty, kind, unit, data, lenoff, lenw) = self.lower_core(f);
        let (array_length, array_stride_expr) = match &f.ty {
            Type::Array { length, .. } => {
                let mut stride = String::from_str("sizeof(");
                stride.append(ty.as_str());
                stride.append("::m0[0])");
                (Some(*length), Some(stride))
            },
            Type::Option(inner) => match &**inner {
                Type::Array { length, .. } => {
                    let mut stride = String::from_str("sizeof(");
                    stride.append(ty.as_str());
                    stride.append("::m0[0])");
                    (Some(*length), Some(stride))
                },
                _ => (None, None),
            },
            _ => (None, None),
        };
        let ty = self.align_wrap(f, ty);
        let mut base = String::from_str("offsetof(");
        base.append(self.typename(schema).as_str());
        base.append(", m");
        base.append(decimal_string(index as u64).as_str());
        base.append(")");
        let mut width_expr = String::from_str("sizeof(");
        width_expr.append(ty.as_str());
        width_expr.append(")");
        let data_offset_expr = match &data {
            Some(x) => Some(sum_expr(base.as_str(), x.as_str())),
            None => None,
        };
        let len_offset_expr = match &lenoff {
            Some(x) => Some(sum_expr(base.as_str(), x.as_str())),
            None => None,
        };
        let len_endian = match f.len {
            Some((_, e)) => Some(e),
            None => None,
        };
        let meta = PathMeta {
            schema: String::from_str(schema),
            path: vec![f.name.clone()],
            offset_expr: base,
            width_expr,
            endian: f.endian,
            kind,
            data_offset_expr,
            len_offset_expr,
            len_width: lenw,
            capacity: f.capacity,
            len_endian,
            unit_width: unit,
            array_length,
            array_stride_expr,
            optional,
        };
        proof {
            assert(path_names(meta.path@) =~= seq![f.name@]);
        }
        (member, ty, meta)
    }
}

/// The lowered fields before field `k`.
pub open spec fn lowered_fields_before(
    m: Model,
    names: Seq<(String, String)>,
    st: GenState,
    fields: Seq<Field>,
    k: nat,
) -> Seq<(Seq<char>, Seq<char>, bool)> {
    let (low, _) = lowered_prefix(m, names, st, fields, k)->0;
    low
}

/// Whether the exec lowered fields `v` are viewed as `low`.
pub open spec fn lowered_as(v: Seq<(String, String, bool)>, low: Seq<(Seq<char>, Seq<char>, bool)>) -> bool {
    &&& v.len() == low.len()
    &&& forall|k: int| 0 <= k < v.len() ==> (#[trigger] v[k]).0@ == low[k].0 && v[k].1@ == low[k].1 && v[k].2 == low[k].2
}

impl<'a> Gen<'a> {
    /// Lowers every field of record schema `n` in order.
    #[verifier::rlimit(40)]
    #[verifier::spinoff_prover]
    fn lower_fields(&mut self, n: &str, fields: &Vec<Field>) -> (r: (Vec<(String, String, bool)>, Vec<PathMeta>))
        requires
            lowered_prefix(*old(self).m, old(self).names@, old(self).state(), fields@, fields@.len()) is Some,
            old(self).helpers + 3 * fields@.len() <= usize::MAX,
            typename_of(old(self).names@, n@) is Some,
        ensures
            final(self).same_context(*old(self)),
            final(self).m == old(self).m,
            ({
                let (low, st1) = lowered_prefix(*old(self).m, old(self).names@, old(self).state(), fields@, fields@.len())->0;
                &&& lowered_as(r.0@, low)
                &&& final(self).state() == st1
                &&& r.1@.len() == fields@.len()
                &&& forall|k: int|
                    0 <= k < fields@.len() ==> field_meta_describes(
                        #[trigger] r.1@[k],
                        *old(self).m,
                        old(self).names@,
                        state_before(*old(self).m, old(self).names@, old(self).state(), fields@, k as nat),
                        n@,
                        k as nat,
                        fields@[k],
                    )
            }),
    {
        let ghost st0 = self.state();
        let ghost m0 = *self.m;
        let ghost names0 = self.names@;
        let mut lowered: Vec<(String, String, bool)> = Vec::new();
        let mut paths: Vec<PathMeta> = Vec::new();
        let mut i: usize = 0;
        while i < fields.len()
            invariant
                i <= fields@.len(),
                *self.m == m0,
                self.names@ == names0,
                self.metas@ == old(self).metas@,
                self.m == old(self).m,
                lowered_prefix(m0, names0, st0, fields@, fields@.len()) is Some,
                st0.0 + 3 * fields@.len() <= usize::MAX,
                typename_of(names0, n@) is Some,
                lowered_prefix(m0, names0, st0, fields@, i as nat) is Some,
                lowered_as(lowered@, lowered_fields_before(m0, names0, st0, fields@, i as nat)),
                self.state() == state_before(m0, names0, st0, fields@, i as nat),
                self.helpers <= st0.0 + 3 * i,
                paths@.len() == i,
                forall|k: int|
                    0 <= k < i ==> field_meta_describes(
                        #[trigger] paths@[k],
                        m0,
                        names0,
                        state_before(m0, names0, st0, fields@, k as nat),
                        n@,
                        k as nat,
                        fields@[k],
                    ),
            decreases fields@.len() - i,
        {
            proof {
                lemma_lowered_prefix_shorter(m0, names0, st0, fields@, (i + 1) as nat, fields@.len());
            }
            let (member, ty, meta) = self.lower_field(n, i, &fields[i]);
            let optional = meta.optional;
            lowered.push((member, ty, optional));
            paths.push(meta);
            i += 1;
        }
        (lowered, paths)
    }

    /// Declares the record `cpp` with the lowered members.
    #[verifier::spinoff_prover]
    fn declare_record(&mut self, cpp: &String, align: Option<u32>, lowered: &Vec<(String, String, bool)>)
        ensures
            final(self).same_context(*old(self)),
            final(self).m == old(self).m,
            final(self).helpers == old(self).helpers,
            final(self).asserts@ == old(self).asserts@,
            forall|low: Seq<(Seq<char>, Seq<char>, bool)>| #[trigger] lowered_as(lowered@, low) ==> final(self).decl@
                == old(self).decl@ + "struct"@ + record_align_attribute(align) + " "@ + cpp@ + " {\n"@
                + members_text(low) + "};\n"@,
    {
        let ghost low = lowered_view(lowered@);
        self.decl.append("struct");
        match align {
            Some(a) => {
                if a > 1 {
                    self.decl.append(" alignas(");
                    self.decl.append(decimal_string(a as u64).as_str());
                    self.decl.append(")");
                }
            },
            None => {},
        }
        self.decl.append(" ");
        self.decl.append(cpp.as_str());
        self.decl.append(" {\n");
        let ghost head = self.decl@;
        assert(head == old(self).decl@ + "struct"@ + record_align_attribute(align) + " "@ + cpp@ + " {\n"@);
        let mut k: usize = 0;
        while k < lowered.len()
            invariant
                k <= lowered@.len(),
                low == lowered_view(lowered@),
                self.decl@ == head + members_text(low.take(k as int)),
                self.helpers == old(self).helpers,
                self.asserts@ == old(self).asserts@,
                self.m == old(self).m,
                self.names@ == old(self).names@,
                self.metas@ == old(self).metas@,
            decreases lowered@.len() - k,
        {
            self.decl.append("  ");
            self.decl.append(lowered[k].1.as_str());
            self.decl.append(" ");
            self.decl.append(lowered[k].0.as_str());
            self.decl.append(";\n");
            proof {
                assert(low.take(k + 1).drop_last() =~= low.take(k as int));
            }
            k += 1;
        }
        assert(low.take(lowered@.len() as int) =~= low);
        self.decl.append("};\n");
        proof {
            assert forall|other: Seq<(Seq<char>, Seq<char>, bool)>| #[trigger] lowered_as(lowered@, other) implies other == low by {
                assert(other =~= low);
            }
        }
    }

    /// Checks one member of record `cpp`.
    #[verifier::spinoff_prover]
    #[verifier::rlimit(60)]
    fn assert_member(&mut self, cpp: &String, lowered: &(String, String, bool))
        ensures
            final(self).same_context(*old(self)),
            final(self).m == old(self).m,
            final(self).helpers == old(self).helpers,
            final(self).decl@ == old(self).decl@,
            final(self).asserts@ == old(self).asserts@ + member_assert_text(
                cpp@,
                (lowered.0@, lowered.1@, lowered.2),
            ),
    {
        let member = lowered.0.as_str();
        let ty = lowered.1.as_str();
        let mut text = String::from_str("static_assert(offsetof(");
        text.append(cpp.as_str());
        text.append(",");
        text.append(member);
        text.append(") < sizeof(");
        text.append(cpp.as_str());
        text.append("));\n");
        if lowered.2 {
            text.append("static_assert(std::is_same<decltype(");
            text.append(cpp.as_str());
            text.append("::");
            text.append(member);
            text.append("),");
            text.append(ty);
            text.append(">::value);\n");
            text.append("static_assert(sizeof(decltype(");
            text.append(cpp.as_str());
            text.append("::");
            text.append(member);
            text.append("))==sizeof(");
            text.append(ty);
            text.append("));\n");
            text.append("static_assert(alignof(decltype(");
            text.append(cpp.as_str());
            text.append("::");
            text.append(member);
            text.append("))==alignof(");
            text.append(ty);
            text.append("));\n");
        }
        self.asserts.append(text.as_str());
    }

    /// Checks every member of record `cpp` and the record itself.
    #[verifier::spinoff_prover]
    fn assert_record(&mut self, cpp: &String, lowered: &Vec<(String, String, bool)>)
        ensures
            final(self).same_context(*old(self)),
            final(self).m == old(self).m,
            final(self).helpers == old(self).helpers,
            final(self).decl@ == old(self).decl@,
            forall|low: Seq<(Seq<char>, Seq<char>, bool)>| #[trigger] lowered_as(lowered@, low) ==> final(self).asserts@
                == old(self).asserts@ + member_asserts_text(cpp@, low) + "static_assert(std::is_standard_layout<"@
                + cpp@ + ">::value && std::is_trivially_copyable<"@ + cpp@ + ">::value);\n"@,
    {
        let ghost low = lowered_view(lowered@);
        let mut k: usize = 0;
        while k < lowered.len()
            invariant
                k <= lowered@.len(),
                low == lowered_view(lowered@),
                self.asserts@ == old(self).asserts@ + member_asserts_text(cpp@, low.take(k as int)),
                self.m == old(self).m,
                self.names@ == old(self).names@,
                self.metas@ == old(self).metas@,
                self.helpers == old(self).helpers,
                self.decl@ == old(self).decl@,
            decreases lowered@.len() - k,
        {
            self.assert_member(cpp, &lowered[k]);
            proof {
                assert(low.take(k + 1).drop_last() =~= low.take(k as int));
            }
            k += 1;
        }
        assert(low.take(lowered@.len() as int) =~= low);
        self.asserts.append("static_assert(std::is_standard_layout<");
        self.asserts.append(cpp.as_str());
        self.asserts.append(">::value && std::is_trivially_copyable<");
        self.asserts.append(cpp.as_str());
        self.asserts.append(">::value);\n");
        proof {
            assert forall|other: Seq<(Seq<char>, Seq<char>, bool)>| #[trigger] lowered_as(lowered@, other) implies other == low by {
                assert(other =~= low);
            }
        }
    }
}

impl<'a> Gen<'a> {
    /// The size and alignment expressions of generated type `cpp`.
    fn size_align(cpp: &String) -> (r: (String, String))
        ensures
            r.0@ == "sizeof("@ + cpp@ + ")"@,
            r.1@ == "alignof("@ + cpp@ + ")"@,
    {
        let mut size_expr = String::from_str("sizeof(");
        size_expr.append(cpp.as_str());
        size_expr.append(")");
        let mut align_expr = String::from_str("alignof(");
        align_expr.append(cpp.as_str());
        align_expr.append(")");
        (size_expr, align_expr)
    }

    /// Generates the union `cpp` for tagged union `n` with `variants`.
    #[verifier::spinoff_prover]
    #[verifier::rlimit(60)]
    fn schema_union(&mut self, n: &str, cpp: &String, align: Option<u32>, variants: &Vec<TaggedVariant>)
        requires
            union_members(old(self).names@, old(self).state(), variants@, variants@.len()) is Some,
            old(self).helpers + variants@.len() <= usize::MAX,
        ensures
            final(self).m == old(self).m,
            final(self).names@ == old(self).names@,
            final(self).metas@.len() == old(self).metas@.len() + 1,
            final(self).metas@.drop_last() == old(self).metas@,
            ({
                let (members, st1) = union_members(old(self).names@, old(self).state(), variants@, variants@.len())->0;
                let t = final(self).metas@.last();
                &&& type_meta_head(t, n@, cpp@)
                &&& final(self).state() == (
                    st1.0,
                    st1.1 + "union"@ + union_align_attribute(align) + " "@ + cpp@ + " {\n"@ + members
                        + "};\n"@,
                    st1.2 + "static_assert(sizeof("@ + cpp@ + ")>0 && std::is_standard_layout<"@ + cpp@
                        + ">::value && std::is_trivially_copyable<"@ + cpp@ + ">::value);\n"@,
                )
                &&& t.paths@.len() == 1
                &&& t.paths@[0].schema@ == n@
                &&& path_names(t.paths@[0].path@) == seq!["$payload"@]
                &&& t.paths@[0].offset_expr@ == "0"@
                &&& t.paths@[0].width_expr@ == "sizeof("@ + cpp@ + ")"@
                &&& t.paths@[0].endian == Endian::Native
                &&& t.paths@[0].kind == PathKind::Payload
                &&& t.paths@[0].data_offset_expr is None
                &&& t.paths@[0].len_offset_expr is None
                &&& t.paths@[0].len_width is None
                &&& t.paths@[0].len_endian is None
                &&& t.paths@[0].capacity is None
                &&& t.paths@[0].unit_width == 1
                &&& t.paths@[0].array_length is None
                &&& t.paths@[0].array_stride_expr is None
                &&& !t.paths@[0].optional
            }),
    {
        let ghost st0 = self.state();
        let ghost names0 = self.names@;
        self.decl.append("union");
        match align {
            Some(a) => {
                self.decl.append(" alignas(");
                self.decl.append(decimal_string(a as u64).as_str());
                self.decl.append(")");
            },
            None => {},
        }
        self.decl.append(" ");
        self.decl.append(cpp.as_str());
        self.decl.append(" {\n");
        let ghost head = self.decl@;
        assert(head == st0.1 + "union"@ + union_align_attribute(align) + " "@ + cpp@ + " {\n"@);
        let mut i: usize = 0;
        while i < variants.len()
            invariant
                i <= variants@.len(),
                self.names@ == names0,
                self.m == old(self).m,
                self.metas@ == old(self).metas@,
                union_members(names0, st0, variants@, variants@.len()) is Some,
                st0.0 + variants@.len() <= usize::MAX,
                union_members(names0, st0, variants@, i as nat) is Some,
                ({
                    let (members, st) = union_members(names0, st0, variants@, i as nat)->0;
                    &&& self.decl@ == head + members
                    &&& self.helpers == st.0
                    &&& st.1 == st0.1
                    &&& st.2 == st0.2
                }),
                self.asserts@ == st0.2,
                self.helpers <= st0.0 + i,
            decreases variants@.len() - i,
        {
            proof {
                lemma_union_members_shorter(names0, st0, variants@, (i + 1) as nat, variants@.len());
            }
            match &variants[i].payload {
                Some(payload) => {
                    let t = self.typename(payload.as_str());
                    self.decl.append("  ");
                    self.decl.append(t.as_str());
                    self.decl.append(" m");
                    self.decl.append(decimal_string(i as u64).as_str());
                    self.decl.append(";\n");
                },
                None => {
                    let unit = self.fresh();
                    self.decl.append("  struct ");
                    self.decl.append(unit.as_str());
                    self.decl.append(" { std::uint8_t value; } m");
                    self.decl.append(decimal_string(i as u64).as_str());
                    self.decl.append(";\n");
                },
            }
            i += 1;
        }
        self.decl.append("};\n");
        self.asserts.append("static_assert(sizeof(");
        self.asserts.append(cpp.as_str());
        self.asserts.append(")>0 && std::is_standard_layout<");
        self.asserts.append(cpp.as_str());
        self.asserts.append(">::value && std::is_trivially_copyable<");
        self.asserts.append(cpp.as_str());
        self.asserts.append(">::value);\n");
        let (size_expr, align_expr) = Self::size_align(cpp);
        let (width_expr, _) = Self::size_align(cpp);
        let payload = PathMeta {
            schema: String::from_str(n),
            path: vec![String::from_str("$payload")],
            offset_expr: String::from_str("0"),
            width_expr,
            endian: Endian::Native,
            kind: PathKind::Payload,
            data_offset_expr: None,
            len_offset_expr: None,
            len_width: None,
            capacity: None,
            len_endian: None,
            unit_width: 1,
            array_length: None,
            array_stride_expr: None,
            optional: false,
        };
        proof {
            assert(path_names(payload.path@) =~= seq!["$payload"@]);
        }
        let t = TypeMeta {
            schema: String::from_str(n),
            cpp: cpp.clone(),
            size_expr,
            align_expr,
            paths: vec![payload],
        };
        self.metas.push(t);
        proof {
            assert(self.metas@.drop_last() =~= old(self).metas@);
        }
    }

    /// Generates the C++ declaration, assertions and type metadata of the
    /// schema named `n`: a scalar enum becomes an alias of its raw storage, a
    /// record a struct of its lowered fields, a tagged union a union of its
    /// payloads.
    #[verifier::spinoff_prover]
    pub fn schema(&mut self, n: &str)
        requires
            schema_generable(*old(self).m, old(self).names@, old(self).state(), n@),
        ensures
            final(self).m == old(self).m,
            final(self).names@ == old(self).names@,
            final(self).metas@.len() == old(self).metas@.len() + 1,
            final(self).metas@.drop_last() == old(self).metas@,
            schema_generated(
                *old(self).m,
                old(self).names@,
                old(self).state(),
                n@,
                final(self).state(),
                final(self).metas@.last(),
            ),
    {
        let m = self.m;
        let s = m.schema(n);
        let cpp = self.typename(n);
        match &s.kind {
            SchemaKind::ScalarEnum { repr, endian, .. } => {
                let r = self.raw(iw(*repr) as u32, *endian);
                self.decl.append("using ");
                self.decl.append(cpp.as_str());
                self.decl.append(" = ");
                self.decl.append(r.as_str());
                self.decl.append(";\n");
                let (size_expr, align_expr) = Self::size_align(&cpp);
                let t = TypeMeta {
                    schema: String::from_str(n),
                    cpp: cpp.clone(),
                    size_expr,
                    align_expr,
                    paths: Vec::new(),
                };
                self.metas.push(t);
                proof {
                    assert(self.metas@.drop_last() =~= old(self).metas@);
                }
            },
            SchemaKind::Struct { fields } => {
                let (lowered, paths) = self.lower_fields(n, fields);
                self.declare_record(&cpp, s.align, &lowered);
                self.assert_record(&cpp, &lowered);
                let (size_expr, align_expr) = Self::size_align(&cpp);
                let t = TypeMeta {
                    schema: String::from_str(n),
                    cpp: cpp.clone(),
                    size_expr,
                    align_expr,
                    paths,
                };
                self.metas.push(t);
                proof {
                    assert(self.metas@.drop_last() =~= old(self).metas@);
                }
            },
            SchemaKind::TaggedEnum { variants, .. } => {
                self.schema_union(n, &cpp, s.align, variants);
            },
        }
    }
}

} // verus!

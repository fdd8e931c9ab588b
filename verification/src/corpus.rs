//! The declaration grammar of the schema corpus: which items, fields, field
//! types, enum variants and root registrations are accepted, and the schema
//! model they declare.

use vstd::prelude::*;

use crate::attributes::{attrs, attrs_upto, Attr, OptionsView};
use crate::conformance::{
    same_text, EnumVariant, Endian, Field, IntWidth, Primitive, RootRegistration, Schema,
    SchemaKind, StringKind, TaggedVariant, Type,
};

verus! {

/// A generic argument of a path segment.
#[derive(Debug)]
pub enum GenericArgSyntax {
    Type(TypeSyntax),
    Other,
}

/// What follows a path segment's name.
#[derive(Debug)]
pub enum SegmentArgs {
    Plain,
    Angle(Vec<GenericArgSyntax>),
    Paren,
}

#[derive(Debug)]
pub struct SegmentSyntax {
    pub name: String,
    pub args: SegmentArgs,
}

/// The length expression of an array type.
#[derive(Debug)]
pub enum LenSyntax {
    Int(u64),
    OtherLiteral,
    NotLiteral,
}

/// The syntax of a field type.
#[derive(Debug)]
pub enum TypeSyntax {
    Path { qself: bool, leading_colon: bool, segments: Vec<SegmentSyntax> },
    Array { elem: Box<TypeSyntax>, len: LenSyntax },
    Reference { mutable: bool, lifetime: bool, elem: Box<TypeSyntax> },
    Other,
}

/// A declaration refused by the corpus grammar.
#[derive(Clone, Copy, Debug, PartialEq, Eq, Structural)]
pub enum CorpusError {
    Refused,
}

/// A field type as a value.
pub enum TypeModel {
    Primitive(Primitive),
    Bool,
    Str(StringKind),
    FixedBytes(u32),
    Array(Box<TypeModel>, u32),
    Schema(Seq<char>),
    Optional(Box<TypeModel>),
}

/// The value of a field type.
pub open spec fn type_model(t: Type) -> TypeModel
    decreases t,
{
    match t {
        Type::Primitive(p) => TypeModel::Primitive(p),
        Type::Bool => TypeModel::Bool,
        Type::String(k) => TypeModel::Str(k),
        Type::FixedBytes(n) => TypeModel::FixedBytes(n),
        Type::Array { element, length } => TypeModel::Array(Box::new(type_model(*element)), length),
        Type::Schema(n) => TypeModel::Schema(n@),
        Type::Option(inner) => TypeModel::Optional(Box::new(type_model(*inner))),
    }
}

/// The names of a path without a leading `::` or arguments on any segment.
pub open spec fn simple_names(leading_colon: bool, segs: Seq<SegmentSyntax>) -> Option<Seq<Seq<char>>> {
    if leading_colon || segs.len() == 0 || exists|k: int| 0 <= k < segs.len() && !(#[trigger] segs[k].args is Plain) {
        None
    } else {
        Some(segs.map_values(|g: SegmentSyntax| g.name@))
    }
}

/// Whether a path spells `Option`, `core::option::Option` or
/// `std::option::Option`.
pub open spec fn option_path(segs: Seq<SegmentSyntax>) -> bool {
    ||| segs.len() == 1 && segs[0].name@ == "Option"@
    ||| segs.len() == 3 && (segs[0].name@ == "core"@ || segs[0].name@ == "std"@) && segs[1].name@
        == "option"@ && segs[2].name@ == "Option"@
}

/// Whether an `Option` path is well formed: no arguments before its last
/// segment, and exactly one type argument there.
pub open spec fn option_args_ok(segs: Seq<SegmentSyntax>) -> bool {
    &&& forall|k: int| 0 <= k < segs.len() - 1 ==> #[trigger] segs[k].args is Plain
    &&& segs.last().args matches SegmentArgs::Angle(a) && a@.len() == 1 && a@[0] is Type
}

/// The field type named by one simple name.
pub open spec fn named_type(n: Seq<char>) -> TypeModel {
    if n == "u8"@ {
        TypeModel::Primitive(Primitive::U8)
    } else if n == "i8"@ {
        TypeModel::Primitive(Primitive::I8)
    } else if n == "u16"@ {
        TypeModel::Primitive(Primitive::U16)
    } else if n == "i16"@ {
        TypeModel::Primitive(Primitive::I16)
    } else if n == "u32"@ {
        TypeModel::Primitive(Primitive::U32)
    } else if n == "i32"@ {
        TypeModel::Primitive(Primitive::I32)
    } else if n == "u64"@ {
        TypeModel::Primitive(Primitive::U64)
    } else if n == "i64"@ {
        TypeModel::Primitive(Primitive::I64)
    } else if n == "f32"@ {
        TypeModel::Primitive(Primitive::F32)
    } else if n == "f64"@ {
        TypeModel::Primitive(Primitive::F64)
    } else if n == "bool"@ {
        TypeModel::Bool
    } else {
        TypeModel::Schema(n)
    }
}

/// The string kind a reference to a simple name holds.
pub open spec fn string_kind(names: Seq<Seq<char>>) -> Option<StringKind> {
    if names == seq!["str"@] {
        Some(StringKind::Utf8)
    } else if names == seq!["CStr"@] {
        Some(StringKind::CBytes)
    } else if names == seq!["U16Str"@] {
        Some(StringKind::U16)
    } else if names == seq!["U16CStr"@] {
        Some(StringKind::U16C)
    } else {
        None
    }
}

/// Whether a type is exactly the path `u8`.
pub open spec fn is_u8_path(t: TypeSyntax) -> bool {
    t matches TypeSyntax::Path { leading_colon, segments, .. } && !leading_colon && segments@.len() == 1
        && segments@[0].name@ == "u8"@ && segments@[0].args is Plain
}

/// A nonzero array length that fits in 32 bits.
pub open spec fn length_of(len: LenSyntax) -> Option<u32> {
    match len {
        LenSyntax::Int(n) => if n == 0 || n > 0xffff_ffff {
            None
        } else {
            Some(n as u32)
        },
        _ => None,
    }
}

/// The field type a type syntax declares, if the grammar accepts it.
pub open spec fn classify_spec(t: TypeSyntax) -> Option<TypeModel>
    decreases t,
{
    match t {
        TypeSyntax::Path { qself, leading_colon, segments } => if qself {
            None
        } else if !leading_colon && option_path(segments@) {
            if option_args_ok(segments@) {
                match segments@.last().args {
                    SegmentArgs::Angle(a) => match a@[0] {
                        GenericArgSyntax::Type(inner) => match classify_spec(inner) {
                            Some(m) => Some(TypeModel::Optional(Box::new(m))),
                            None => None,
                        },
                        _ => None,
                    },
                    _ => None,
                }
            } else {
                None
            }
        } else {
            match simple_names(leading_colon, segments@) {
                Some(names) => if names.len() == 1 {
                    Some(named_type(names[0]))
                } else {
                    None
                },
                None => None,
            }
        },
        TypeSyntax::Array { elem, len } => match length_of(len) {
            Some(n) => match classify_spec(*elem) {
                Some(e) => if e is Primitive || e is Bool || e is Schema {
                    Some(TypeModel::Array(Box::new(e), n))
                } else {
                    None
                },
                None => None,
            },
            None => None,
        },
        TypeSyntax::Reference { mutable, lifetime, elem } => if mutable || !lifetime {
            None
        } else {
            match *elem {
                TypeSyntax::Path { qself, leading_colon, segments } => if qself {
                    None
                } else {
                    match simple_names(leading_colon, segments@) {
                        Some(names) => match string_kind(names) {
                            Some(k) => Some(TypeModel::Str(k)),
                            None => None,
                        },
                        None => None,
                    }
                },
                TypeSyntax::Array { elem: byte, len } => if is_u8_path(*byte) {
                    match length_of(len) {
                        Some(n) => Some(TypeModel::FixedBytes(n)),
                        None => None,
                    }
                } else {
                    None
                },
                _ => None,
            }
        },
        TypeSyntax::Other => None,
    }
}

fn all_plain(segs: &Vec<SegmentSyntax>, upto: usize) -> (r: bool)
    requires
        upto <= segs@.len(),
    ensures
        r == forall|k: int| 0 <= k < upto ==> #[trigger] segs@[k].args is Plain,
{
    let mut k: usize = 0;
    while k < upto
        invariant
            upto <= segs@.len(),
            k <= upto,
            forall|j: int| 0 <= j < k ==> #[trigger] segs@[j].args is Plain,
        decreases upto - k,
    {
        if !matches!(segs[k].args, SegmentArgs::Plain) {
            return false;
        }
        k += 1;
    }
    true
}

fn option_path_exec(segs: &Vec<SegmentSyntax>) -> (r: bool)
    ensures
        r == option_path(segs@),
{
    if segs.len() == 1 {
        same_text(segs[0].name.as_str(), "Option")
    } else if segs.len() == 3 {
        (same_text(segs[0].name.as_str(), "core") || same_text(segs[0].name.as_str(), "std"))
            && same_text(segs[1].name.as_str(), "option") && same_text(segs[2].name.as_str(), "Option")
    } else {
        false
    }
}

fn named_type_exec(n: &String) -> (r: Type)
    ensures
        type_model(r) == named_type(n@),
{
    let x = n.as_str();
    if same_text(x, "u8") {
        Type::Primitive(Primitive::U8)
    } else if same_text(x, "i8") {
        Type::Primitive(Primitive::I8)
    } else if same_text(x, "u16") {
        Type::Primitive(Primitive::U16)
    } else if same_text(x, "i16") {
        Type::Primitive(Primitive::I16)
    } else if same_text(x, "u32") {
        Type::Primitive(Primitive::U32)
    } else if same_text(x, "i32") {
        Type::Primitive(Primitive::I32)
    } else if same_text(x, "u64") {
        Type::Primitive(Primitive::U64)
    } else if same_text(x, "i64") {
        Type::Primitive(Primitive::I64)
    } else if same_text(x, "f32") {
        Type::Primitive(Primitive::F32)
    } else if same_text(x, "f64") {
        Type::Primitive(Primitive::F64)
    } else if same_text(x, "bool") {
        Type::Bool
    } else {
        Type::Schema(n.clone())
    }
}

fn length_exec(len: &LenSyntax) -> (r: Option<u32>)
    ensures
        r == length_of(*len),
{
    match len {
        LenSyntax::Int(n) => if *n == 0 || *n > 0xffff_ffff {
            None
        } else {
            Some(*n as u32)
        },
        _ => None,
    }
}

/// The field type a type syntax declares; refused where the grammar does
/// not accept the syntax.
pub fn classify(t: &TypeSyntax) -> (r: Result<Type, CorpusError>)
    ensures
        match classify_spec(*t) {
            Some(m) => r matches Ok(ty) && type_model(ty) == m,
            None => r is Err,
        },
    decreases t,
{
    match t {
        TypeSyntax::Path { qself, leading_colon, segments } => {
            if *qself {
                return Err(CorpusError::Refused);
            }
            if !*leading_colon && option_path_exec(segments) {
                let n = segments.len();
                if !all_plain(segments, n - 1) {
                    return Err(CorpusError::Refused);
                }
                match &segments[n - 1].args {
                    SegmentArgs::Angle(a) => {
                        if a.len() != 1 {
                            return Err(CorpusError::Refused);
                        }
                        match &a[0] {
                            GenericArgSyntax::Type(inner) => match classify(inner) {
                                Ok(m) => Ok(Type::Option(Box::new(m))),
                                Err(e) => Err(e),
                            },
                            _ => Err(CorpusError::Refused),
                        }
                    },
                    _ => Err(CorpusError::Refused),
                }
            } else {
                if *leading_colon || segments.len() == 0 || !all_plain(segments, segments.len()) {
                    return Err(CorpusError::Refused);
                }
                if segments.len() != 1 {
                    return Err(CorpusError::Refused);
                }
                assert(segments@.map_values(|g: SegmentSyntax| g.name@) =~= seq![segments@[0].name@]);
                Ok(named_type_exec(&segments[0].name))
            }
        },
        TypeSyntax::Array { elem, len } => {
            let n = match length_exec(len) {
                Some(n) => n,
                None => {
                    return Err(CorpusError::Refused);
                },
            };
            match classify(&**elem) {
                Ok(e) => {
                    if matches!(e, Type::Primitive(_) | Type::Bool | Type::Schema(_)) {
                        Ok(Type::Array { element: Box::new(e), length: n })
                    } else {
                        Err(CorpusError::Refused)
                    }
                },
                Err(e) => Err(e),
            }
        },
        TypeSyntax::Reference { mutable, lifetime, elem } => {
            if *mutable || !*lifetime {
                return Err(CorpusError::Refused);
            }
            match &**elem {
                TypeSyntax::Path { qself, leading_colon, segments } => {
                    if *qself || *leading_colon || segments.len() == 0 || !all_plain(
                        segments,
                        segments.len(),
                    ) {
                        return Err(CorpusError::Refused);
                    }
                    let ghost names = segments@.map_values(|g: SegmentSyntax| g.name@);
                    if segments.len() != 1 {
                        assert(names.len() != 1);
                        return Err(CorpusError::Refused);
                    }
                    assert(names =~= seq![segments@[0].name@]);
                    let x = segments[0].name.as_str();
                    proof {
                        assert forall|w: Seq<char>| #[trigger] seq![w] == names implies w == x@ by {
                            assert(seq![w][0] == w);
                        }
                    }
                    if same_text(x, "str") {
                        Ok(Type::String(StringKind::Utf8))
                    } else if same_text(x, "CStr") {
                        Ok(Type::String(StringKind::CBytes))
                    } else if same_text(x, "U16Str") {
                        Ok(Type::String(StringKind::U16))
                    } else if same_text(x, "U16CStr") {
                        Ok(Type::String(StringKind::U16C))
                    } else {
                        proof {
                            if string_kind(names) is Some {
                                assert(names[0] == segments@[0].name@);
                            }
                        }
                        Err(CorpusError::Refused)
                    }
                },
                TypeSyntax::Array { elem: byte, len } => {
                    let u8_path = match &**byte {
                        TypeSyntax::Path { leading_colon, segments, .. } => !*leading_colon
                            && segments.len() == 1 && same_text(segments[0].name.as_str(), "u8")
                            && matches!(segments[0].args, SegmentArgs::Plain),
                        _ => false,
                    };
                    if !u8_path {
                        return Err(CorpusError::Refused);
                    }
                    match length_exec(len) {
                        Some(n) => Ok(Type::FixedBytes(n)),
                        None => Err(CorpusError::Refused),
                    }
                },
                _ => Err(CorpusError::Refused),
            }
        },
        TypeSyntax::Other => Err(CorpusError::Refused),
    }
}

/// A declared field as a value.
pub struct FieldModel {
    pub name: Seq<char>,
    pub ty: TypeModel,
    pub endian: Endian,
    pub align: Option<u32>,
    pub capacity: Option<u32>,
    pub len: Option<(IntWidth, Endian)>,
    pub tag_field: Option<Seq<char>>,
}

/// The kind of a declared schema as a value.
pub enum KindModel {
    Record(Seq<FieldModel>),
    Scalar(IntWidth, Endian, Seq<(Seq<char>, u64)>),
    Tagged(Seq<char>, Seq<(Seq<char>, Seq<char>, Option<Seq<char>>)>),
}

/// A declared schema as a value.
pub struct SchemaModel {
    pub name: Seq<char>,
    pub kind: KindModel,
    pub align: Option<u32>,
}

pub open spec fn opt_name(o: Option<String>) -> Option<Seq<char>> {
    match o {
        Some(x) => Some(x@),
        None => None,
    }
}

pub open spec fn field_model(f: Field) -> FieldModel {
    FieldModel {
        name: f.name@,
        ty: type_model(f.ty),
        endian: f.endian,
        align: f.align,
        capacity: f.capacity,
        len: f.len,
        tag_field: opt_name(f.tag_field),
    }
}

pub open spec fn schema_model(x: Schema) -> SchemaModel {
    SchemaModel {
        name: x.name@,
        kind: match x.kind {
            SchemaKind::Struct { fields } => KindModel::Record(fields@.map_values(|f: Field| field_model(f))),
            SchemaKind::ScalarEnum { repr, endian, variants } => KindModel::Scalar(
                repr,
                endian,
                variants@.map_values(|v: EnumVariant| (v.name@, v.raw)),
            ),
            SchemaKind::TaggedEnum { tag, variants } => KindModel::Tagged(
                tag@,
                variants@.map_values(|v: TaggedVariant| (v.name@, v.tag_variant@, opt_name(v.payload))),
            ),
        },
        align: x.align,
    }
}

pub open spec fn registration_model(r: RootRegistration) -> (Seq<char>, u32) {
    (r.root_id@, r.case_id)
}

/// A named field of a record declaration.
#[derive(Debug)]
pub struct FieldSyntax {
    pub public: bool,
    pub name: String,
    pub attrs: Vec<Attr>,
    pub ty: TypeSyntax,
}

#[derive(Debug)]
pub enum FieldsSyntax {
    Named(Vec<FieldSyntax>),
    Other,
}

#[derive(Debug)]
pub enum VariantFields {
    Unit,
    Unnamed(Vec<TypeSyntax>),
    Named,
}

/// The explicit discriminant of an enum variant.
#[derive(Debug)]
pub enum DiscriminantSyntax {
    Absent,
    Int(u64),
    OtherLiteral,
    NotLiteral,
}

#[derive(Debug)]
pub struct VariantSyntax {
    pub name: String,
    pub attrs: Vec<Attr>,
    pub fields: VariantFields,
    pub discriminant: DiscriminantSyntax,
}

/// A generic parameter of a declaration.
#[derive(Clone, Copy, Debug, PartialEq, Eq, Structural)]
pub enum ParamKind {
    Lifetime,
    Other,
}

/// An import tree.
#[derive(Debug)]
pub enum UseSyntax {
    Path(String, Box<UseSyntax>),
    Name(String),
    Group(Vec<UseSyntax>),
    Other,
}

/// An expression of the root registry.
#[derive(Debug)]
pub enum ExprSyntax {
    Reference(Box<ExprSyntax>),
    Array(Vec<ExprSyntax>),
    Tuple(Vec<ExprSyntax>),
    Str(String),
    Int(u64),
    Other,
}

/// One item of the schema corpus.
#[derive(Debug)]
pub enum CorpusItem {
    Use { has_attrs: bool, tree: UseSyntax },
    Struct {
        public: bool,
        params: Vec<ParamKind>,
        where_clause: bool,
        attrs: Vec<Attr>,
        name: String,
        fields: FieldsSyntax,
    },
    Enum {
        public: bool,
        params: Vec<ParamKind>,
        where_clause: bool,
        attrs: Vec<Attr>,
        name: String,
        variants: Vec<VariantSyntax>,
    },
    Const { public: bool, has_attrs: bool, name: String, expr: ExprSyntax },
    Other,
}

/// Whether field options fit the field type: a capacity exactly on strings,
/// no capacity, length width or byte order on fixed bytes or arrays, only an
/// alignment on optional fields, and a length width only on length-prefixed
/// strings.
pub open spec fn options_fit(o: OptionsView, ty: TypeModel) -> bool {
    &&& (ty is Str) == (o.2 is Some)
    &&& !(ty is FixedBytes && (o.2 is Some || o.3 is Some || o.0 is Some))
    &&& !(ty is Array && (o.2 is Some || o.3 is Some || o.0 is Some))
    &&& !(ty is Optional && (o.2 is Some || o.3 is Some || o.0 is Some || o.5 is Some))
    &&& (o.3 is Some ==> (ty matches TypeModel::Str(k) && (k is Utf8 || k is U16)))
}

/// The field a field declaration declares.
pub open spec fn field_spec(f: FieldSyntax) -> Option<FieldModel> {
    match attrs_upto(f.attrs@, false, f.attrs@.len() as int) {
        Some((o, r)) => match classify_spec(f.ty) {
            Some(ty) => if f.public && r is None && o.4 is None && options_fit(o, ty) {
                let endian = match o.0 {
                    Some(e) => e,
                    None => Endian::Native,
                };
                Some(
                    FieldModel {
                        name: f.name@,
                        ty,
                        endian,
                        align: o.1,
                        capacity: o.2,
                        len: match o.3 {
                            Some(w) => Some((w, endian)),
                            None => None,
                        },
                        tag_field: o.5,
                    },
                )
            } else {
                None
            },
            None => None,
        },
        None => None,
    }
}

/// The fields of the first `k` field declarations.
pub open spec fn fields_spec(fs: Seq<FieldSyntax>, k: int) -> Option<Seq<FieldModel>>
    decreases k,
{
    if k <= 0 || k > fs.len() {
        Some(Seq::empty())
    } else {
        match (fields_spec(fs, k - 1), field_spec(fs[k - 1])) {
            (Some(a), Some(b)) => Some(a.push(b)),
            _ => None,
        }
    }
}

/// The payload a tagged variant's fields name.
pub open spec fn payload_spec(f: VariantFields) -> Option<Option<Seq<char>>> {
    match f {
        VariantFields::Unit => Some(None),
        VariantFields::Unnamed(ts) => if ts@.len() == 1 {
            match classify_spec(ts@[0]) {
                Some(TypeModel::Schema(n)) => Some(Some(n)),
                _ => None,
            }
        } else {
            None
        },
        VariantFields::Named => None,
    }
}

/// A tagged variant: its tag enum and its name, tag variant and payload.
pub open spec fn tagged_variant_spec(v: VariantSyntax, tag: Option<Seq<char>>) -> Option<
    (Seq<char>, (Seq<char>, Seq<char>, Option<Seq<char>>)),
> {
    match attrs_upto(v.attrs@, false, v.attrs@.len() as int) {
        Some((o, r)) => match o.4 {
            Some(segs) => if v.discriminant is Absent && r is None && o.0 is None && o.1 is None
                && o.2 is None && o.3 is None && o.5 is None && segs.len() == 2 && (tag matches Some(
                t,
            ) ==> t == segs[0]) {
                match payload_spec(v.fields) {
                    Some(p) => Some((segs[0], (v.name@, segs[1], p))),
                    None => None,
                }
            } else {
                None
            },
            None => None,
        },
        None => None,
    }
}

/// The shared tag enum and the variants of the first `k` tagged variants.
pub open spec fn tagged_spec(vs: Seq<VariantSyntax>, k: int) -> Option<
    (Option<Seq<char>>, Seq<(Seq<char>, Seq<char>, Option<Seq<char>>)>),
>
    decreases k,
{
    if k <= 0 || k > vs.len() {
        Some((None, Seq::empty()))
    } else {
        match tagged_spec(vs, k - 1) {
            Some((tag, done)) => match tagged_variant_spec(vs[k - 1], tag) {
                Some((t, v)) => Some((Some(t), done.push(v))),
                None => None,
            },
            None => None,
        }
    }
}

/// The largest raw value of a width.
pub open spec fn width_max(w: IntWidth) -> u64 {
    match w {
        IntWidth::U8 => 0xff,
        IntWidth::U16 => 0xffff,
        IntWidth::U32 => 0xffff_ffff,
    }
}

/// A scalar enum variant: a plain unit with an integer discriminant that
/// fits the representation.
pub open spec fn scalar_variant_spec(v: VariantSyntax, w: IntWidth) -> Option<(Seq<char>, u64)> {
    if v.attrs@.len() == 0 && v.fields is Unit {
        match v.discriminant {
            DiscriminantSyntax::Int(raw) => if raw <= width_max(w) {
                Some((v.name@, raw))
            } else {
                None
            },
            _ => None,
        }
    } else {
        None
    }
}

pub open spec fn scalar_spec(vs: Seq<VariantSyntax>, w: IntWidth, k: int) -> Option<Seq<(Seq<char>, u64)>>
    decreases k,
{
    if k <= 0 || k > vs.len() {
        Some(Seq::empty())
    } else {
        match (scalar_spec(vs, w, k - 1), scalar_variant_spec(vs[k - 1], w)) {
            (Some(a), Some(b)) => Some(a.push(b)),
            _ => None,
        }
    }
}

/// The schema a record declaration declares.
pub open spec fn struct_spec(
    public: bool,
    params: Seq<ParamKind>,
    where_clause: bool,
    attrs: Seq<Attr>,
    name: Seq<char>,
    fields: FieldsSyntax,
) -> Option<SchemaModel> {
    if !public || where_clause || params.len() > 1 || (params.len() == 1 && params[0] != ParamKind::Lifetime) {
        None
    } else {
        match attrs_upto(attrs, false, attrs.len() as int) {
            Some((z, r)) => if r is None && z.4 is None {
                match fields {
                    FieldsSyntax::Named(fs) => match fields_spec(fs@, fs@.len() as int) {
                        Some(ms) => Some(SchemaModel { name, kind: KindModel::Record(ms), align: z.1 }),
                        None => None,
                    },
                    FieldsSyntax::Other => None,
                }
            } else {
                None
            },
            None => None,
        }
    }
}

/// The schema an enum declaration declares: a tagged payload without a
/// representation, a scalar enum with one.
pub open spec fn enum_spec(
    public: bool,
    params: Seq<ParamKind>,
    where_clause: bool,
    attrs: Seq<Attr>,
    name: Seq<char>,
    variants: Seq<VariantSyntax>,
) -> Option<SchemaModel> {
    if !public || params.len() != 0 || where_clause {
        None
    } else {
        match attrs_upto(attrs, true, attrs.len() as int) {
            Some((z, repr)) => match repr {
                None => if z.4 is Some || z.0 is Some {
                    None
                } else {
                    match tagged_spec(variants, variants.len() as int) {
                        Some((Some(tag), vs)) => Some(
                            SchemaModel { name, kind: KindModel::Tagged(tag, vs), align: z.1 },
                        ),
                        _ => None,
                    }
                },
                Some(w) => if z.1 is Some {
                    None
                } else {
                    match scalar_spec(variants, w, variants.len() as int) {
                        Some(vs) => Some(
                            SchemaModel {
                                name,
                                kind: KindModel::Scalar(
                                    w,
                                    match z.0 {
                                        Some(e) => e,
                                        None => Endian::Native,
                                    },
                                    vs,
                                ),
                                align: None,
                            },
                        ),
                        None => None,
                    }
                },
            },
            None => None,
        }
    }
}

/// The text of an import tree: `a::b`, and `{x,y}` for groups.
pub open spec fn use_text(t: UseSyntax) -> Option<Seq<char>>
    decreases t, 0nat,
{
    match t {
        UseSyntax::Path(n, sub) => match use_text(*sub) {
            Some(q) => Some(n@ + "::"@ + q),
            None => None,
        },
        UseSyntax::Name(n) => Some(n@),
        UseSyntax::Group(items) => match group_text(items@, items@.len() as int) {
            Some(g) => Some("{"@ + g + "}"@),
            None => None,
        },
        UseSyntax::Other => None,
    }
}

/// The texts of the first `k` trees of a group, separated by commas.
pub open spec fn group_text(items: Seq<UseSyntax>, k: int) -> Option<Seq<char>>
    decreases items, k,
{
    if k <= 0 || k > items.len() {
        Some(Seq::empty())
    } else if k == 1 {
        use_text(items[0])
    } else {
        match (group_text(items, k - 1), use_text(items[k - 1])) {
            (Some(a), Some(b)) => Some(a + ","@ + b),
            _ => None,
        }
    }
}

/// A registry entry: a tuple of a string root identity and a 32-bit case identity.
pub open spec fn registration_spec(e: ExprSyntax) -> Option<(Seq<char>, u32)> {
    match e {
        ExprSyntax::Tuple(ts) => if ts@.len() == 2 {
            match (ts@[0], ts@[1]) {
                (ExprSyntax::Str(s), ExprSyntax::Int(n)) => if n <= 0xffff_ffff {
                    Some((s@, n as u32))
                } else {
                    None
                },
                _ => None,
            }
        } else {
            None
        },
        _ => None,
    }
}

pub open spec fn registrations_spec(es: Seq<ExprSyntax>, k: int) -> Option<Seq<(Seq<char>, u32)>>
    decreases k,
{
    if k <= 0 || k > es.len() {
        Some(Seq::empty())
    } else {
        match (registrations_spec(es, k - 1), registration_spec(es[k - 1])) {
            (Some(a), Some(b)) => Some(a.push(b)),
            _ => None,
        }
    }
}

/// The root registry: a borrowed array of registrations.
pub open spec fn registry_spec(e: ExprSyntax) -> Option<Seq<(Seq<char>, u32)>> {
    match e {
        ExprSyntax::Reference(inner) => match *inner {
            ExprSyntax::Array(es) => registrations_spec(es@, es@.len() as int),
            _ => None,
        },
        _ => None,
    }
}

/// What the corpus declares so far: schemas, the root registry, imports.
pub type CorpusState = (Seq<SchemaModel>, Option<Seq<(Seq<char>, u32)>>, Seq<Seq<char>>);

/// The state after one more item.
pub open spec fn item_step(st: CorpusState, item: CorpusItem) -> Option<CorpusState> {
    match item {
        CorpusItem::Use { has_attrs, tree } => if has_attrs {
            None
        } else {
            match use_text(tree) {
                Some(q) => Some((st.0, st.1, st.2.push(q))),
                None => None,
            }
        },
        CorpusItem::Struct { public, params, where_clause, attrs, name, fields } => match struct_spec(
            public,
            params@,
            where_clause,
            attrs@,
            name@,
            fields,
        ) {
            Some(m) => Some((st.0.push(m), st.1, st.2)),
            None => None,
        },
        CorpusItem::Enum { public, params, where_clause, attrs, name, variants } => match enum_spec(
            public,
            params@,
            where_clause,
            attrs@,
            name@,
            variants@,
        ) {
            Some(m) => Some((st.0.push(m), st.1, st.2)),
            None => None,
        },
        CorpusItem::Const { public, has_attrs, name, expr } => if name@ == "CONFORMANCE_ROOT_IDS"@
            && st.1 is None && !has_attrs && public {
            match registry_spec(expr) {
                Some(rs) => Some((st.0, Some(rs), st.2)),
                None => None,
            }
        } else {
            None
        },
        CorpusItem::Other => None,
    }
}

pub open spec fn corpus_upto(items: Seq<CorpusItem>, k: int) -> Option<CorpusState>
    decreases k,
{
    if k <= 0 || k > items.len() {
        Some((Seq::empty(), None, Seq::empty()))
    } else {
        match corpus_upto(items, k - 1) {
            Some(st) => item_step(st, items[k - 1]),
            None => None,
        }
    }
}

/// The imports a corpus must make, no more and no fewer.
pub open spec fn frozen_import(q: Seq<char>) -> bool {
    q == "core::ffi::CStr"@ || q == "widestring::{U16CStr,U16Str}"@ || q == "zero_schema::zero"@
}

pub open spec fn imports_ok(qs: Seq<Seq<char>>) -> bool {
    &&& forall|i: int| 0 <= i < qs.len() ==> frozen_import(#[trigger] qs[i])
    &&& qs.contains("core::ffi::CStr"@)
    &&& qs.contains("widestring::{U16CStr,U16Str}"@)
    &&& qs.contains("zero_schema::zero"@)
}

/// The schemas and registrations a corpus declares, if it is accepted.
pub open spec fn corpus_spec(items: Seq<CorpusItem>) -> Option<(Seq<SchemaModel>, Seq<(Seq<char>, u32)>)> {
    match corpus_upto(items, items.len() as int) {
        Some((schemas, Some(roots), imports)) => if imports_ok(imports) {
            Some((schemas, roots))
        } else {
            None
        },
        _ => None,
    }
}

proof fn lemma_fields_refused(fs: Seq<FieldSyntax>, k: int, n: int)
    requires
        0 < k <= n <= fs.len(),
        fields_spec(fs, k) is None,
    ensures
        fields_spec(fs, n) is None,
    decreases n - k,
{
    if k < n {
        lemma_fields_refused(fs, k, n - 1);
    }
}

proof fn lemma_scalar_refused(vs: Seq<VariantSyntax>, w: IntWidth, k: int, n: int)
    requires
        0 < k <= n <= vs.len(),
        scalar_spec(vs, w, k) is None,
    ensures
        scalar_spec(vs, w, n) is None,
    decreases n - k,
{
    if k < n {
        lemma_scalar_refused(vs, w, k, n - 1);
    }
}

proof fn lemma_tagged_refused(vs: Seq<VariantSyntax>, k: int, n: int)
    requires
        0 < k <= n <= vs.len(),
        tagged_spec(vs, k) is None,
    ensures
        tagged_spec(vs, n) is None,
    decreases n - k,
{
    if k < n {
        lemma_tagged_refused(vs, k, n - 1);
    }
}

proof fn lemma_registrations_refused(es: Seq<ExprSyntax>, k: int, n: int)
    requires
        0 < k <= n <= es.len(),
        registrations_spec(es, k) is None,
    ensures
        registrations_spec(es, n) is None,
    decreases n - k,
{
    if k < n {
        lemma_registrations_refused(es, k, n - 1);
    }
}

proof fn lemma_group_refused(items: Seq<UseSyntax>, k: int, n: int)
    requires
        0 < k <= n <= items.len(),
        group_text(items, k) is None,
    ensures
        group_text(items, n) is None,
    decreases n - k,
{
    if k < n {
        lemma_group_refused(items, k, n - 1);
    }
}

proof fn lemma_corpus_refused(items: Seq<CorpusItem>, k: int, n: int)
    requires
        0 < k <= n <= items.len(),
        corpus_upto(items, k) is None,
    ensures
        corpus_upto(items, n) is None,
    decreases n - k,
{
    if k < n {
        lemma_corpus_refused(items, k, n - 1);
    }
}

/// The field a field declaration declares.
#[verifier::spinoff_prover]
fn field_exec(f: &FieldSyntax) -> (r: Result<Field, CorpusError>)
    ensures
        match field_spec(*f) {
            Some(m) => r matches Ok(x) && field_model(x) == m,
            None => r is Err,
        },
{
    let (o, repr) = match attrs(f.attrs.as_slice(), false) {
        Ok(p) => p,
        Err(_) => {
            return Err(CorpusError::Refused);
        },
    };
    let ty = match classify(&f.ty) {
        Ok(t) => t,
        Err(e) => {
            return Err(e);
        },
    };
    if !f.public || repr.is_some() || o.tag.is_some() {
        return Err(CorpusError::Refused);
    }
    let is_str = matches!(ty, Type::String(_));
    let cap = o.capacity.is_some();
    let width = o.len.is_some();
    let order = o.endian.is_some();
    if is_str != cap {
        return Err(CorpusError::Refused);
    }
    if matches!(ty, Type::FixedBytes(_)) && (cap || width || order) {
        return Err(CorpusError::Refused);
    }
    if matches!(ty, Type::Array { .. }) && (cap || width || order) {
        return Err(CorpusError::Refused);
    }
    if matches!(ty, Type::Option(_)) && (cap || width || order || o.tag_field.is_some()) {
        return Err(CorpusError::Refused);
    }
    if width && !matches!(ty, Type::String(StringKind::Utf8) | Type::String(StringKind::U16)) {
        return Err(CorpusError::Refused);
    }
    let endian = match o.endian {
        Some(e) => e,
        None => Endian::Native,
    };
    let len = match o.len {
        Some(w) => Some((w, endian)),
        None => None,
    };
    Ok(Field {
        name: f.name.clone(),
        ty,
        endian,
        align: o.align,
        capacity: o.capacity,
        len,
        tag_field: o.tag_field,
    })
}

fn fields_exec(fs: &Vec<FieldSyntax>) -> (r: Result<Vec<Field>, CorpusError>)
    ensures
        match fields_spec(fs@, fs@.len() as int) {
            Some(m) => r matches Ok(v) && v@.map_values(|x: Field| field_model(x)) == m,
            None => r is Err,
        },
{
    let mut out: Vec<Field> = Vec::new();
    let mut k: usize = 0;
    while k < fs.len()
        invariant
            k <= fs@.len(),
            fields_spec(fs@, k as int) == Some(out@.map_values(|x: Field| field_model(x))),
        decreases fs@.len() - k,
    {
        match field_exec(&fs[k]) {
            Ok(x) => {
                let ghost prev = out@;
                out.push(x);
                assert(out@.map_values(|x: Field| field_model(x)) =~= prev.map_values(
                    |x: Field| field_model(x),
                ).push(field_model(x)));
            },
            Err(e) => {
                proof {
                    lemma_fields_refused(fs@, k + 1, fs@.len() as int);
                }
                return Err(e);
            },
        }
        k += 1;
    }
    Ok(out)
}

fn scalar_exec(vs: &Vec<VariantSyntax>, w: IntWidth) -> (r: Result<Vec<EnumVariant>, CorpusError>)
    ensures
        match scalar_spec(vs@, w, vs@.len() as int) {
            Some(m) => r matches Ok(v) && v@.map_values(|x: EnumVariant| (x.name@, x.raw)) == m,
            None => r is Err,
        },
{
    let max: u64 = match w {
        IntWidth::U8 => 0xff,
        IntWidth::U16 => 0xffff,
        IntWidth::U32 => 0xffff_ffff,
    };
    let mut out: Vec<EnumVariant> = Vec::new();
    let mut k: usize = 0;
    while k < vs.len()
        invariant
            k <= vs@.len(),
            max == width_max(w),
            scalar_spec(vs@, w, k as int) == Some(out@.map_values(|x: EnumVariant| (x.name@, x.raw))),
        decreases vs@.len() - k,
    {
        let v = &vs[k];
        let raw = match v.discriminant {
            DiscriminantSyntax::Int(raw) => raw,
            _ => 0,
        };
        if v.attrs.len() != 0 || !matches!(v.fields, VariantFields::Unit) || !matches!(
            v.discriminant,
            DiscriminantSyntax::Int(_)
        ) || raw > max {
            proof {
                lemma_scalar_refused(vs@, w, k + 1, vs@.len() as int);
            }
            return Err(CorpusError::Refused);
        }
        let ghost prev = out@;
        out.push(EnumVariant { name: v.name.clone(), raw });
        assert(out@.map_values(|x: EnumVariant| (x.name@, x.raw)) =~= prev.map_values(
            |x: EnumVariant| (x.name@, x.raw),
        ).push((v.name@, raw)));
        k += 1;
    }
    Ok(out)
}

/// The payload a tagged variant's fields name.
fn payload_exec(f: &VariantFields) -> (r: Result<Option<String>, CorpusError>)
    ensures
        match payload_spec(*f) {
            Some(p) => r matches Ok(x) && opt_name(x) == p,
            None => r is Err,
        },
{
    match f {
        VariantFields::Unit => Ok(None),
        VariantFields::Unnamed(ts) => {
            if ts.len() != 1 {
                return Err(CorpusError::Refused);
            }
            match classify(&ts[0]) {
                Ok(Type::Schema(n)) => Ok(Some(n)),
                _ => Err(CorpusError::Refused),
            }
        },
        VariantFields::Named => Err(CorpusError::Refused),
    }
}

#[verifier::spinoff_prover]
fn tagged_exec(vs: &Vec<VariantSyntax>) -> (r: Result<(String, Vec<TaggedVariant>), CorpusError>)
    ensures
        match tagged_spec(vs@, vs@.len() as int) {
            Some((Some(t), m)) => r matches Ok((tag, v)) && tag@ == t && v@.map_values(
                |x: TaggedVariant| (x.name@, x.tag_variant@, opt_name(x.payload)),
            ) == m,
            _ => r is Err,
        },
{
    let mut tag: Option<String> = None;
    let mut out: Vec<TaggedVariant> = Vec::new();
    let mut k: usize = 0;
    while k < vs.len()
        invariant
            k <= vs@.len(),
            tagged_spec(vs@, k as int) == Some(
                (
                    opt_name(tag),
                    out@.map_values(|x: TaggedVariant| (x.name@, x.tag_variant@, opt_name(x.payload))),
                ),
            ),
        decreases vs@.len() - k,
    {
        let v = &vs[k];
        let (o, vr) = match attrs(v.attrs.as_slice(), false) {
            Ok(p) => p,
            Err(_) => {
                proof {
                    lemma_tagged_refused(vs@, k + 1, vs@.len() as int);
                }
                return Err(CorpusError::Refused);
            },
        };
        if !matches!(v.discriminant, DiscriminantSyntax::Absent) || vr.is_some() || o.endian.is_some()
            || o.align.is_some() || o.capacity.is_some() || o.len.is_some() || o.tag_field.is_some() {
            proof {
                lemma_tagged_refused(vs@, k + 1, vs@.len() as int);
            }
            return Err(CorpusError::Refused);
        }
        let segs = match o.tag {
            Some(segs) => segs,
            None => {
                proof {
                    lemma_tagged_refused(vs@, k + 1, vs@.len() as int);
                }
                return Err(CorpusError::Refused);
            },
        };
        if segs.len() != 2 {
            proof {
                lemma_tagged_refused(vs@, k + 1, vs@.len() as int);
            }
            return Err(CorpusError::Refused);
        }
        let shared = match &tag {
            Some(t) => same_text(t.as_str(), segs[0].as_str()),
            None => true,
        };
        if !shared {
            proof {
                lemma_tagged_refused(vs@, k + 1, vs@.len() as int);
            }
            return Err(CorpusError::Refused);
        }
        let payload = match payload_exec(&v.fields) {
            Ok(p) => p,
            Err(e) => {
                proof {
                    lemma_tagged_refused(vs@, k + 1, vs@.len() as int);
                }
                return Err(e);
            },
        };
        let ghost prev = out@;
        let name = v.name.clone();
        let tag_variant = segs[1].clone();
        tag = Some(segs[0].clone());
        out.push(TaggedVariant { name, tag_variant, payload });
        assert(out@.map_values(|x: TaggedVariant| (x.name@, x.tag_variant@, opt_name(x.payload)))
            =~= prev.map_values(|x: TaggedVariant| (x.name@, x.tag_variant@, opt_name(x.payload))).push(
            (v.name@, segs@[1]@, opt_name(payload)),
        ));
        k += 1;
    }
    match tag {
        Some(t) => Ok((t, out)),
        None => Err(CorpusError::Refused),
    }
}

fn params_ok(params: &Vec<ParamKind>, lifetime_allowed: bool) -> (r: bool)
    ensures
        r == if lifetime_allowed {
            !(params@.len() > 1 || (params@.len() == 1 && params@[0] != ParamKind::Lifetime))
        } else {
            params@.len() == 0
        },
{
    if lifetime_allowed {
        params.len() == 0 || (params.len() == 1 && params[0] == ParamKind::Lifetime)
    } else {
        params.len() == 0
    }
}

/// The schema a record declaration declares.
#[verifier::spinoff_prover]
fn struct_exec(
    public: bool,
    params: &Vec<ParamKind>,
    where_clause: bool,
    list: &Vec<Attr>,
    name: &String,
    fields: &FieldsSyntax,
) -> (r: Result<Schema, CorpusError>)
    ensures
        match struct_spec(public, params@, where_clause, list@, name@, *fields) {
            Some(m) => r matches Ok(x) && schema_model(x) == m,
            None => r is Err,
        },
{
    if !public || where_clause || !params_ok(params, true) {
        return Err(CorpusError::Refused);
    }
    let (z, r) = match attrs(list.as_slice(), false) {
        Ok(p) => p,
        Err(_) => {
            return Err(CorpusError::Refused);
        },
    };
    if r.is_some() || z.tag.is_some() {
        return Err(CorpusError::Refused);
    }
    match fields {
        FieldsSyntax::Named(fs) => match fields_exec(fs) {
            Ok(v) => {
                let x = Schema { name: name.clone(), kind: SchemaKind::Struct { fields: v }, align: z.align };
                Ok(x)
            },
            Err(e) => Err(e),
        },
        FieldsSyntax::Other => Err(CorpusError::Refused),
    }
}

/// The schema an enum declaration declares.
#[verifier::spinoff_prover]
fn enum_exec(
    public: bool,
    params: &Vec<ParamKind>,
    where_clause: bool,
    list: &Vec<Attr>,
    name: &String,
    variants: &Vec<VariantSyntax>,
) -> (r: Result<Schema, CorpusError>)
    ensures
        match enum_spec(public, params@, where_clause, list@, name@, variants@) {
            Some(m) => r matches Ok(x) && schema_model(x) == m,
            None => r is Err,
        },
{
    if !public || where_clause || !params_ok(params, false) {
        return Err(CorpusError::Refused);
    }
    let (z, repr) = match attrs(list.as_slice(), true) {
        Ok(p) => p,
        Err(_) => {
            return Err(CorpusError::Refused);
        },
    };
    match repr {
        None => {
            if z.tag.is_some() || z.endian.is_some() {
                return Err(CorpusError::Refused);
            }
            match tagged_exec(variants) {
                Ok((tag, vs)) => Ok(
                    Schema { name: name.clone(), kind: SchemaKind::TaggedEnum { tag, variants: vs }, align: z.align },
                ),
                Err(e) => Err(e),
            }
        },
        Some(w) => {
            if z.align.is_some() {
                return Err(CorpusError::Refused);
            }
            let endian = match z.endian {
                Some(e) => e,
                None => Endian::Native,
            };
            match scalar_exec(variants, w) {
                Ok(vs) => Ok(
                    Schema {
                        name: name.clone(),
                        kind: SchemaKind::ScalarEnum { repr: w, endian, variants: vs },
                        align: None,
                    },
                ),
                Err(e) => Err(e),
            }
        },
    }
}

/// The text of an import tree.
fn use_exec(t: &UseSyntax) -> (r: Option<String>)
    ensures
        match use_text(*t) {
            Some(q) => r matches Some(x) && x@ == q,
            None => r is None,
        },
    decreases t, 0nat,
{
    match t {
        UseSyntax::Path(n, sub) => match use_exec(&**sub) {
            Some(q) => {
                let mut x = n.clone();
                x.append("::");
                x.append(q.as_str());
                Some(x)
            },
            None => None,
        },
        UseSyntax::Name(n) => Some(n.clone()),
        UseSyntax::Group(items) => match group_exec(items) {
            Some(g) => {
                let mut x = String::from_str("{");
                x.append(g.as_str());
                x.append("}");
                Some(x)
            },
            None => None,
        },
        UseSyntax::Other => None,
    }
}

fn group_exec(items: &Vec<UseSyntax>) -> (r: Option<String>)
    ensures
        match group_text(items@, items@.len() as int) {
            Some(q) => r matches Some(x) && x@ == q,
            None => r is None,
        },
    decreases items@, 1nat,
{
    let mut out = String::new();
    let mut k: usize = 0;
    while k < items.len()
        invariant
            k <= items@.len(),
            group_text(items@, k as int) == Some(out@),
        decreases items@.len() - k,
    {
        match use_exec(&items[k]) {
            Some(q) => {
                if k > 0 {
                    out.append(",");
                }
                out.append(q.as_str());
            },
            None => {
                proof {
                    lemma_group_refused(items@, k + 1, items@.len() as int);
                }
                return None;
            },
        }
        k += 1;
    }
    Some(out)
}

fn registry_exec(e: &ExprSyntax) -> (r: Option<Vec<RootRegistration>>)
    ensures
        match registry_spec(*e) {
            Some(m) => r matches Some(v) && v@.map_values(|x: RootRegistration| registration_model(x)) == m,
            None => r is None,
        },
{
    let es = match e {
        ExprSyntax::Reference(inner) => match &**inner {
            ExprSyntax::Array(es) => es,
            _ => {
                return None;
            },
        },
        _ => {
            return None;
        },
    };
    let mut out: Vec<RootRegistration> = Vec::new();
    let mut k: usize = 0;
    while k < es.len()
        invariant
            k <= es@.len(),
            registry_spec(*e) == registrations_spec(es@, es@.len() as int),
            registrations_spec(es@, k as int) == Some(
                out@.map_values(|x: RootRegistration| registration_model(x)),
            ),
        decreases es@.len() - k,
    {
        let entry = match &es[k] {
            ExprSyntax::Tuple(ts) => {
                if ts.len() == 2 {
                    match (&ts[0], &ts[1]) {
                        (ExprSyntax::Str(s), ExprSyntax::Int(n)) => if *n <= 0xffff_ffff {
                            Some(RootRegistration { root_id: s.clone(), case_id: *n as u32 })
                        } else {
                            None
                        },
                        _ => None,
                    }
                } else {
                    None
                }
            },
            _ => None,
        };
        match entry {
            Some(x) => {
                let ghost prev = out@;
                out.push(x);
                assert(out@.map_values(|x: RootRegistration| registration_model(x)) =~= prev.map_values(
                    |x: RootRegistration| registration_model(x),
                ).push(registration_model(x)));
            },
            None => {
                assert(registration_spec(es@[k as int]) is None);
                assert(registrations_spec(es@, k + 1) is None);
                proof {
                    lemma_registrations_refused(es@, k + 1, es@.len() as int);
                }
                return None;
            },
        }
        k += 1;
    }
    Some(out)
}

pub open spec fn registry_model(o: Option<Vec<RootRegistration>>) -> Option<Seq<(Seq<char>, u32)>> {
    match o {
        Some(v) => Some(v@.map_values(|x: RootRegistration| registration_model(x))),
        None => None,
    }
}

fn imports_exec(qs: &Vec<String>) -> (r: bool)
    ensures
        r == imports_ok(qs@.map_values(|x: String| x@)),
{
    let ghost view = qs@.map_values(|x: String| x@);
    let mut a = false;
    let mut b = false;
    let mut c = false;
    let mut k: usize = 0;
    while k < qs.len()
        invariant
            k <= qs@.len(),
            view == qs@.map_values(|x: String| x@),
            forall|i: int| 0 <= i < k ==> frozen_import(#[trigger] view[i]),
            a == exists|i: int| 0 <= i < k && view[i] == "core::ffi::CStr"@,
            b == exists|i: int| 0 <= i < k && view[i] == "widestring::{U16CStr,U16Str}"@,
            c == exists|i: int| 0 <= i < k && view[i] == "zero_schema::zero"@,
        decreases qs@.len() - k,
    {
        let x = qs[k].as_str();
        let is_a = same_text(x, "core::ffi::CStr");
        let is_b = same_text(x, "widestring::{U16CStr,U16Str}");
        let is_c = same_text(x, "zero_schema::zero");
        assert(view[k as int] == x@);
        if !(is_a || is_b || is_c) {
            return false;
        }
        a = a || is_a;
        b = b || is_b;
        c = c || is_c;
        k += 1;
    }
    proof {
        if a {
            let i = choose|i: int| 0 <= i < k && view[i] == "core::ffi::CStr"@;
            assert(view.contains(view[i]));
        }
        if b {
            let i = choose|i: int| 0 <= i < k && view[i] == "widestring::{U16CStr,U16Str}"@;
            assert(view.contains(view[i]));
        }
        if c {
            let i = choose|i: int| 0 <= i < k && view[i] == "zero_schema::zero"@;
            assert(view.contains(view[i]));
        }
    }
    a && b && c
}

/// Reads the schemas and root registrations a corpus declares; refused
/// exactly when the declaration grammar refuses the corpus.
#[verifier::spinoff_prover]
pub fn read_corpus(items: &Vec<CorpusItem>) -> (r: Result<(Vec<Schema>, Vec<RootRegistration>), CorpusError>)
    ensures
        match corpus_spec(items@) {
            Some((ss, rs)) => r matches Ok((schemas, roots)) && schemas@.map_values(
                |x: Schema| schema_model(x),
            ) == ss && roots@.map_values(|x: RootRegistration| registration_model(x)) == rs,
            None => r is Err,
        },
{
    let mut schemas: Vec<Schema> = Vec::new();
    let mut roots: Option<Vec<RootRegistration>> = None;
    let mut imports: Vec<String> = Vec::new();
    let mut k: usize = 0;
    while k < items.len()
        invariant
            k <= items@.len(),
            corpus_upto(items@, k as int) == Some(
                (
                    schemas@.map_values(|x: Schema| schema_model(x)),
                    registry_model(roots),
                    imports@.map_values(|x: String| x@),
                ),
            ),
        decreases items@.len() - k,
    {
        let ghost before_s = schemas@;
        let ghost before_i = imports@;
        let step: Result<(), CorpusError> = match &items[k] {
            CorpusItem::Use { has_attrs, tree } => {
                if *has_attrs {
                    Err(CorpusError::Refused)
                } else {
                    match use_exec(tree) {
                        Some(q) => {
                            imports.push(q);
                            assert(imports@.map_values(|x: String| x@) =~= before_i.map_values(
                                |x: String| x@,
                            ).push(q@));
                            Ok(())
                        },
                        None => Err(CorpusError::Refused),
                    }
                }
            },
            CorpusItem::Struct { public, params, where_clause, attrs, name, fields } => match struct_exec(
                *public,
                params,
                *where_clause,
                attrs,
                name,
                fields,
            ) {
                Ok(x) => {
                    schemas.push(x);
                    assert(schemas@.map_values(|x: Schema| schema_model(x)) =~= before_s.map_values(
                        |x: Schema| schema_model(x),
                    ).push(schema_model(x)));
                    Ok(())
                },
                Err(e) => Err(e),
            },
            CorpusItem::Enum { public, params, where_clause, attrs, name, variants } => match enum_exec(
                *public,
                params,
                *where_clause,
                attrs,
                name,
                variants,
            ) {
                Ok(x) => {
                    schemas.push(x);
                    assert(schemas@.map_values(|x: Schema| schema_model(x)) =~= before_s.map_values(
                        |x: Schema| schema_model(x),
                    ).push(schema_model(x)));
                    Ok(())
                },
                Err(e) => Err(e),
            },
            CorpusItem::Const { public, has_attrs, name, expr } => {
                if !same_text(name.as_str(), "CONFORMANCE_ROOT_IDS") || roots.is_some() || *has_attrs
                    || !*public {
                    Err(CorpusError::Refused)
                } else {
                    match registry_exec(expr) {
                        Some(rs) => {
                            roots = Some(rs);
                            Ok(())
                        },
                        None => Err(CorpusError::Refused),
                    }
                }
            },
            CorpusItem::Other => Err(CorpusError::Refused),
        };
        if step.is_err() {
            proof {
                lemma_corpus_refused(items@, k + 1, items@.len() as int);
            }
            return Err(CorpusError::Refused);
        }
        k += 1;
    }
    let ok = imports_exec(&imports);
    match roots {
        Some(rs) => if ok {
            Ok((schemas, rs))
        } else {
            Err(CorpusError::Refused)
        },
        None => Err(CorpusError::Refused),
    }
}

} // verus!

use zero_schema::{
    ArrayDescriptor, ArrayElementKind, ByteRange, Endian, EnumValueDescriptor,
    ExternalTagDescriptor, FieldDescriptor, FieldKind, IntegerRepr, LayoutDescriptor,
    LengthDescriptor, LengthRepr, PrimitiveKind, StringDescriptor, StringEncoding, TypeKind,
    VariantDescriptor,
};

fn leak<T>(value: T) -> &'static T {
    Box::leak(Box::new(value))
}

fn leak_slice<T>(values: Vec<T>) -> &'static [T] {
    Box::leak(values.into_boxed_slice())
}

fn layout(
    name: &'static str,
    kind: TypeKind,
    size: usize,
    align: usize,
    stride: usize,
    padding: &'static [ByteRange],
    fields: &'static [FieldDescriptor],
    enum_values: &'static [EnumValueDescriptor],
    variants: &'static [VariantDescriptor],
) -> &'static LayoutDescriptor {
    leak(LayoutDescriptor::__new(
        name,
        kind,
        size,
        align,
        stride,
        padding,
        fields,
        enum_values,
        variants,
    ))
}

struct Fixture {
    scalar_enum: &'static LayoutDescriptor,
    unit_payload: &'static LayoutDescriptor,
    payload_record: &'static LayoutDescriptor,
    payload: &'static LayoutDescriptor,
    length: LengthDescriptor,
    string: StringDescriptor,
    array: ArrayDescriptor,
    padding: &'static [ByteRange],
    root: &'static LayoutDescriptor,
}

fn fixture() -> Fixture {
    let scalar_enum = layout(
        "State",
        TypeKind::ScalarEnum { repr: IntegerRepr::U16, endian: Endian::Big },
        2,
        2,
        2,
        &[],
        &[],
        leak_slice(vec![
            EnumValueDescriptor::__new("Ready", 7),
            EnumValueDescriptor::__new("Stopped", 9),
        ]),
        &[],
    );
    let unit_payload = layout("NonePayload", TypeKind::Struct, 1, 1, 1, &[], &[], &[], &[]);
    let payload_record = layout("DataPayload", TypeKind::Struct, 4, 4, 4, &[], &[], &[], &[]);
    let variants = leak_slice(vec![
        VariantDescriptor::__new("None", 0, unit_payload, 1, 1),
        VariantDescriptor::__new("Data", 7, payload_record, 4, 4),
    ]);
    let payload = layout("Payload", TypeKind::TaggedUnion, 4, 4, 4, &[], &[], &[], variants);
    let length = LengthDescriptor::__new(LengthRepr::U8, Endian::Little, 0);
    let string = StringDescriptor::__new(StringEncoding::Utf8, 8, Some(length), 1);
    let array = ArrayDescriptor::__new(
        ArrayElementKind::Primitive { primitive: PrimitiveKind::U32, endian: Endian::Native },
        3,
        4,
    );
    let tag = ExternalTagDescriptor::__new("state", 5, scalar_enum);
    let fields = leak_slice(vec![
        FieldDescriptor::__new(
            "number",
            0,
            0,
            4,
            4,
            FieldKind::Primitive { primitive: PrimitiveKind::U32, endian: Endian::Native },
            false,
        ),
        FieldDescriptor::__new("flag", 1, 4, 1, 1, FieldKind::Bool, false),
        FieldDescriptor::__new(
            "state",
            2,
            5,
            2,
            1,
            FieldKind::ScalarEnum { layout: scalar_enum },
            true,
        ),
        FieldDescriptor::__new("name", 3, 7, 9, 1, FieldKind::String(string), false),
        FieldDescriptor::__new("bytes", 4, 16, 3, 1, FieldKind::FixedBytes { length: 3 }, false),
        FieldDescriptor::__new("samples", 5, 20, 12, 4, FieldKind::Array(array), false),
        FieldDescriptor::__new(
            "child",
            6,
            32,
            4,
            4,
            FieldKind::Schema { layout: payload_record },
            false,
        ),
        FieldDescriptor::__new(
            "payload",
            7,
            36,
            4,
            4,
            FieldKind::ExternalTaggedUnion { payload, tag },
            false,
        ),
    ]);
    let padding = leak_slice(vec![ByteRange::__new(19, 20), ByteRange::__new(40, 44)]);
    let root = layout("Root", TypeKind::Struct, 44, 4, 44, padding, fields, &[], &[]);
    Fixture {
        scalar_enum,
        unit_payload,
        payload_record,
        payload,
        length,
        string,
        array,
        padding,
        root,
    }
}

#[test]
fn constructors_expose_every_descriptor_form() {
    let f = fixture();
    let root = f.root;
    assert_eq!(root.name(), "Root");
    assert_eq!(root.kind(), TypeKind::Struct);
    assert_eq!((root.size(), root.align(), root.stride()), (44, 4, 44));
    assert_eq!(root.padding(), f.padding);
    assert!(root.enum_values().is_empty());
    assert!(root.variants().is_empty());

    let primitive = root.fields()[0];
    assert_eq!(primitive.declaration_index(), 0);
    assert_eq!((primitive.offset(), primitive.size(), primitive.align()), (0, 4, 4));
    assert!(matches!(
        primitive.kind(),
        FieldKind::Primitive { primitive: PrimitiveKind::U32, endian: Endian::Native }
    ));
    assert_eq!(root.fields()[1].kind(), FieldKind::Bool);
    assert!(!primitive.is_optional());
    assert!(!root.fields()[1].is_optional());
    assert!(root.fields()[2].is_optional());
    assert_eq!(root.fields()[2].kind(), FieldKind::ScalarEnum { layout: f.scalar_enum });
    assert_eq!(root.fields()[3].kind(), FieldKind::String(f.string));
    assert_eq!(root.fields()[4].kind(), FieldKind::FixedBytes { length: 3 });
    assert_eq!(root.fields()[5].kind(), FieldKind::Array(f.array));
    assert_eq!(root.fields()[6].kind(), FieldKind::Schema { layout: f.payload_record });

    let FieldKind::ExternalTaggedUnion { payload, tag } = root.fields()[7].kind() else {
        panic!("expected external tagged payload metadata");
    };
    assert_eq!(payload, f.payload);
    assert_eq!(tag.field_name(), "state");
    assert_eq!(tag.offset(), 5);
    assert_eq!(tag.layout(), f.scalar_enum);

    assert_eq!(f.string.encoding(), StringEncoding::Utf8);
    assert_eq!(f.string.capacity(), 8);
    assert_eq!(f.string.length(), Some(f.length));
    assert_eq!(f.string.data_offset(), 1);
    assert_eq!(f.length.repr(), LengthRepr::U8);
    assert_eq!(f.length.endian(), Endian::Little);
    assert_eq!(f.length.offset(), 0);

    assert_eq!(
        f.array.element(),
        ArrayElementKind::Primitive { primitive: PrimitiveKind::U32, endian: Endian::Native }
    );
    assert_eq!(f.array.length(), 3);
    assert_eq!(f.array.stride(), 4);
    assert_eq!(f.scalar_enum.enum_values()[0].name(), "Ready");
    assert_eq!(f.scalar_enum.enum_values()[1].raw_value(), 9);
}

#[test]
fn array_element_descriptor_forms_are_available() {
    let f = fixture();
    let primitive = ArrayDescriptor::__new(
        ArrayElementKind::Primitive { primitive: PrimitiveKind::I16, endian: Endian::Big },
        2,
        2,
    );
    let boolean = ArrayDescriptor::__new(ArrayElementKind::Bool, 3, 1);
    let scalar_enum =
        ArrayDescriptor::__new(ArrayElementKind::ScalarEnum { layout: f.scalar_enum }, 4, 2);
    let schema =
        ArrayDescriptor::__new(ArrayElementKind::Schema { layout: f.payload_record }, 5, 4);

    assert!(matches!(
        primitive.element(),
        ArrayElementKind::Primitive { primitive: PrimitiveKind::I16, endian: Endian::Big }
    ));
    assert_eq!(boolean.element(), ArrayElementKind::Bool);
    assert_eq!(scalar_enum.element(), ArrayElementKind::ScalarEnum { layout: f.scalar_enum });
    assert_eq!(schema.element(), ArrayElementKind::Schema { layout: f.payload_record });
    assert_eq!(
        [primitive.length(), boolean.length(), scalar_enum.length(), schema.length()],
        [2, 3, 4, 5]
    );
    assert_eq!(
        [primitive.stride(), boolean.stride(), scalar_enum.stride(), schema.stride()],
        [2, 1, 2, 4]
    );
}

#[test]
fn tagged_payload_metadata_has_no_physical_tag_storage() {
    let f = fixture();
    assert_eq!(f.payload.kind(), TypeKind::TaggedUnion);
    let unit = f.payload.variants()[0];
    let data = f.payload.variants()[1];
    assert_eq!((unit.name(), unit.raw_tag()), ("None", 0));
    assert_eq!(unit.payload(), f.unit_payload);
    assert_eq!((unit.payload_size(), unit.payload_align()), (1, 1));
    assert_eq!((data.name(), data.raw_tag()), ("Data", 7));
    assert_eq!(data.payload(), f.payload_record);
    assert_eq!((data.payload_size(), data.payload_align()), (4, 4));
}

#[test]
fn metadata_does_not_participate_in_byte_access() {
    let diagnostic_only = layout(
        "DiagnosticOnly",
        TypeKind::Struct,
        1,
        1,
        1,
        leak_slice(vec![ByteRange::__new(8, 3)]),
        leak_slice(vec![FieldDescriptor::__new(
            "outside",
            0,
            usize::MAX,
            1,
            1,
            FieldKind::FixedBytes { length: 1 },
            false,
        )]),
        &[],
        &[],
    );

    let bytes = [0xa5_u8];
    let field = diagnostic_only.fields()[0];
    assert_eq!(field.offset(), usize::MAX);
    assert_eq!(diagnostic_only.padding()[0], ByteRange::__new(8, 3));
    assert_eq!(bytes, [0xa5]);
}

#[test]
fn byte_range_constructor_does_not_validate() {
    let reversed = ByteRange::__new(9, 3);
    assert_eq!((reversed.start(), reversed.end()), (9, 3));
}

#[test]
fn every_scalar_metadata_enum_variant_is_available() {
    let primitives = [
        PrimitiveKind::U8,
        PrimitiveKind::I8,
        PrimitiveKind::U16,
        PrimitiveKind::I16,
        PrimitiveKind::U32,
        PrimitiveKind::I32,
        PrimitiveKind::U64,
        PrimitiveKind::I64,
        PrimitiveKind::F32,
        PrimitiveKind::F64,
    ];
    assert_eq!(primitives.len(), 10);
    assert_eq!([IntegerRepr::U8, IntegerRepr::U16, IntegerRepr::U32].len(), 3);
    assert_eq!([LengthRepr::U8, LengthRepr::U16, LengthRepr::U32].len(), 3);
    assert_eq!([Endian::Native, Endian::Little, Endian::Big].len(), 3);
    assert_eq!(
        [StringEncoding::Utf8, StringEncoding::CBytes, StringEncoding::U16, StringEncoding::U16C]
            .len(),
        4
    );
}

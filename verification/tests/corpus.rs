use zero_schema::attributes::{Attr, AttrArgs};
use zero_schema::cases::Tok;
use zero_schema::conformance::{Endian, Primitive, SchemaKind, StringKind, Type};
use zero_schema::corpus::{
    classify, read_corpus, CorpusError, CorpusItem, DiscriminantSyntax, ExprSyntax, FieldSyntax,
    FieldsSyntax, GenericArgSyntax, LenSyntax, ParamKind, SegmentArgs, SegmentSyntax, TypeSyntax,
    UseSyntax, VariantFields, VariantSyntax,
};

fn plain(name: &str) -> TypeSyntax {
    TypeSyntax::Path {
        qself: false,
        leading_colon: false,
        segments: vec![SegmentSyntax { name: name.to_string(), args: SegmentArgs::Plain }],
    }
}

fn path(names: &[&str]) -> TypeSyntax {
    TypeSyntax::Path {
        qself: false,
        leading_colon: false,
        segments: names
            .iter()
            .map(|n| SegmentSyntax { name: n.to_string(), args: SegmentArgs::Plain })
            .collect(),
    }
}

fn option_of(inner: TypeSyntax) -> TypeSyntax {
    TypeSyntax::Path {
        qself: false,
        leading_colon: false,
        segments: vec![SegmentSyntax {
            name: "Option".to_string(),
            args: SegmentArgs::Angle(vec![GenericArgSyntax::Type(inner)]),
        }],
    }
}

fn array(elem: TypeSyntax, len: u64) -> TypeSyntax {
    TypeSyntax::Array { elem: Box::new(elem), len: LenSyntax::Int(len) }
}

fn borrowed(elem: TypeSyntax) -> TypeSyntax {
    TypeSyntax::Reference { mutable: false, lifetime: true, elem: Box::new(elem) }
}

fn use_path(parts: &[&str], last: UseSyntax) -> CorpusItem {
    let mut tree = last;
    for p in parts.iter().rev() {
        tree = UseSyntax::Path(p.to_string(), Box::new(tree));
    }
    CorpusItem::Use { has_attrs: false, tree }
}

fn frozen_imports() -> Vec<CorpusItem> {
    vec![
        use_path(&["core", "ffi"], UseSyntax::Name("CStr".to_string())),
        use_path(
            &["widestring"],
            UseSyntax::Group(vec![
                UseSyntax::Name("U16CStr".to_string()),
                UseSyntax::Name("U16Str".to_string()),
            ]),
        ),
        use_path(&["zero_schema"], UseSyntax::Name("zero".to_string())),
    ]
}

fn field(name: &str, attrs: Vec<Attr>, ty: TypeSyntax) -> FieldSyntax {
    FieldSyntax { public: true, name: name.to_string(), attrs, ty }
}

fn record(name: &str, fields: Vec<FieldSyntax>) -> CorpusItem {
    CorpusItem::Struct {
        public: true,
        params: vec![ParamKind::Lifetime],
        where_clause: false,
        attrs: vec![],
        name: name.to_string(),
        fields: FieldsSyntax::Named(fields),
    }
}

fn registry(entries: &[(&str, u64)]) -> CorpusItem {
    CorpusItem::Const {
        public: true,
        has_attrs: false,
        name: "CONFORMANCE_ROOT_IDS".to_string(),
        expr: ExprSyntax::Reference(Box::new(ExprSyntax::Array(
            entries
                .iter()
                .map(|(s, n)| ExprSyntax::Tuple(vec![ExprSyntax::Str(s.to_string()), ExprSyntax::Int(*n)]))
                .collect(),
        ))),
    }
}

fn zero_attr(toks: Vec<Tok>) -> Attr {
    Attr { path: vec!["zero".to_string()], args: AttrArgs::List(toks) }
}

fn repr(width: &str) -> Attr {
    Attr { path: vec!["repr".to_string()], args: AttrArgs::List(vec![Tok::Ident(width.to_string())]) }
}

#[test]
fn classify_reads_primitives_options_arrays_and_strings() {
    assert!(matches!(classify(&plain("u8")), Ok(Type::Primitive(Primitive::U8))));
    assert!(matches!(classify(&plain("bool")), Ok(Type::Bool)));
    match classify(&option_of(plain("Color"))) {
        Ok(Type::Option(inner)) => assert!(matches!(*inner, Type::Schema(ref n) if n == "Color")),
        other => panic!("unexpected {other:?}"),
    }
    match classify(&array(plain("u16"), 4)) {
        Ok(Type::Array { element, length }) => {
            assert_eq!(length, 4);
            assert!(matches!(*element, Type::Primitive(Primitive::U16)));
        }
        other => panic!("unexpected {other:?}"),
    }
    assert!(matches!(classify(&borrowed(plain("str"))), Ok(Type::String(StringKind::Utf8))));
    assert!(matches!(classify(&borrowed(plain("U16CStr"))), Ok(Type::String(StringKind::U16C))));
    assert!(matches!(classify(&borrowed(array(plain("u8"), 3))), Ok(Type::FixedBytes(3))));
    match classify(&path(&["core", "option", "Option"])) {
        Err(CorpusError::Refused) => {}
        other => panic!("an Option path needs its argument: {other:?}"),
    }
}

#[test]
fn classify_refuses_what_the_grammar_forbids() {
    assert_eq!(classify(&path(&["a", "B"])).err(), Some(CorpusError::Refused));
    assert_eq!(classify(&array(plain("u8"), 0)).err(), Some(CorpusError::Refused));
    assert_eq!(classify(&borrowed(array(plain("u8"), 0))).err(), Some(CorpusError::Refused));
    assert_eq!(classify(&borrowed(array(plain("u16"), 3))).err(), Some(CorpusError::Refused));
    assert_eq!(classify(&array(borrowed(plain("str")), 2)).err(), Some(CorpusError::Refused));
    let unborrowed = TypeSyntax::Reference { mutable: false, lifetime: false, elem: Box::new(plain("str")) };
    assert_eq!(classify(&unborrowed).err(), Some(CorpusError::Refused));
    let mutable = TypeSyntax::Reference { mutable: true, lifetime: true, elem: Box::new(plain("str")) };
    assert_eq!(classify(&mutable).err(), Some(CorpusError::Refused));
    assert_eq!(classify(&TypeSyntax::Other).err(), Some(CorpusError::Refused));
}

#[test]
fn read_corpus_declares_records_enums_and_registrations() {
    let mut items = frozen_imports();
    items.push(record(
        "Point",
        vec![
            field("x", vec![], plain("u32")),
            field(
                "label",
                vec![zero_attr(vec![Tok::Ident("capacity".to_string()), Tok::Punct('='), Tok::Int(8)])],
                borrowed(plain("str")),
            ),
        ],
    ));
    items.push(CorpusItem::Enum {
        public: true,
        params: vec![],
        where_clause: false,
        attrs: vec![repr("u8")],
        name: "Color".to_string(),
        variants: vec![VariantSyntax {
            name: "Red".to_string(),
            attrs: vec![],
            fields: VariantFields::Unit,
            discriminant: DiscriminantSyntax::Int(1),
        }],
    });
    items.push(registry(&[("point", 1001)]));
    let (schemas, roots) = read_corpus(&items).unwrap();
    assert_eq!(schemas.len(), 2);
    assert_eq!(schemas[0].name, "Point");
    match &schemas[0].kind {
        SchemaKind::Struct { fields } => {
            assert_eq!(fields.len(), 2);
            assert_eq!(fields[0].name, "x");
            assert_eq!(fields[0].endian, Endian::Native);
            assert_eq!(fields[1].capacity, Some(8));
            assert!(matches!(fields[1].ty, Type::String(StringKind::Utf8)));
        }
        other => panic!("unexpected {other:?}"),
    }
    match &schemas[1].kind {
        SchemaKind::ScalarEnum { variants, .. } => {
            assert_eq!(variants.len(), 1);
            assert_eq!(variants[0].raw, 1);
        }
        other => panic!("unexpected {other:?}"),
    }
    assert_eq!(roots.len(), 1);
    assert_eq!(roots[0].root_id, "point");
    assert_eq!(roots[0].case_id, 1001);
}

#[test]
fn read_corpus_refuses_broken_declarations() {
    // A string field without a capacity.
    let mut items = frozen_imports();
    items.push(record("Name", vec![field("text", vec![], borrowed(plain("str")))]));
    items.push(registry(&[("name", 1001)]));
    assert_eq!(read_corpus(&items).err(), Some(CorpusError::Refused));

    // A capacity on a field that is no string.
    let mut items = frozen_imports();
    items.push(record(
        "Count",
        vec![field(
            "n",
            vec![zero_attr(vec![Tok::Ident("capacity".to_string()), Tok::Punct('='), Tok::Int(8)])],
            plain("u32"),
        )],
    ));
    items.push(registry(&[("count", 1001)]));
    assert_eq!(read_corpus(&items).err(), Some(CorpusError::Refused));

    // An option field with a byte order.
    let mut items = frozen_imports();
    items.push(record(
        "Maybe",
        vec![field(
            "n",
            vec![zero_attr(vec![Tok::Ident("endian".to_string()), Tok::Punct('='), Tok::Str("big".to_string())])],
            option_of(plain("u32")),
        )],
    ));
    items.push(registry(&[("maybe", 1001)]));
    assert_eq!(read_corpus(&items).err(), Some(CorpusError::Refused));

    // A missing import, a missing registry, an unknown item.
    let mut items = frozen_imports();
    items.pop();
    items.push(registry(&[("x", 1001)]));
    assert_eq!(read_corpus(&items).err(), Some(CorpusError::Refused));
    assert_eq!(read_corpus(&frozen_imports()).err(), Some(CorpusError::Refused));
    let mut items = frozen_imports();
    items.push(registry(&[("x", 1001)]));
    items.push(CorpusItem::Other);
    assert_eq!(read_corpus(&items).err(), Some(CorpusError::Refused));

    // A registration whose case identity exceeds 32 bits, a second registry.
    let mut items = frozen_imports();
    items.push(registry(&[("x", 0x1_0000_0000)]));
    assert_eq!(read_corpus(&items).err(), Some(CorpusError::Refused));
    let mut items = frozen_imports();
    items.push(registry(&[("x", 1001)]));
    items.push(registry(&[("y", 1002)]));
    assert_eq!(read_corpus(&items).err(), Some(CorpusError::Refused));

    // A scalar discriminant that does not fit its representation.
    let mut items = frozen_imports();
    items.push(CorpusItem::Enum {
        public: true,
        params: vec![],
        where_clause: false,
        attrs: vec![repr("u8")],
        name: "Big".to_string(),
        variants: vec![VariantSyntax {
            name: "Huge".to_string(),
            attrs: vec![],
            fields: VariantFields::Unit,
            discriminant: DiscriminantSyntax::Int(256),
        }],
    });
    items.push(registry(&[("x", 1001)]));
    assert_eq!(read_corpus(&items).err(), Some(CorpusError::Refused));

    // A private field.
    let mut items = frozen_imports();
    items.push(record(
        "Hidden",
        vec![FieldSyntax { public: false, name: "x".to_string(), attrs: vec![], ty: plain("u8") }],
    ));
    items.push(registry(&[("x", 1001)]));
    assert_eq!(read_corpus(&items).err(), Some(CorpusError::Refused));
}

fn tagged_variant(name: &str, tag: &str, variant: &str, fields: VariantFields) -> VariantSyntax {
    VariantSyntax {
        name: name.to_string(),
        attrs: vec![zero_attr(vec![
            Tok::Ident("tag".to_string()),
            Tok::Punct('='),
            Tok::Ident(tag.to_string()),
            Tok::Punct(':'),
            Tok::Punct(':'),
            Tok::Ident(variant.to_string()),
        ])],
        fields,
        discriminant: DiscriminantSyntax::Absent,
    }
}

fn tagged_enum(variants: Vec<VariantSyntax>) -> CorpusItem {
    CorpusItem::Enum {
        public: true,
        params: vec![],
        where_clause: false,
        attrs: vec![],
        name: "Shape".to_string(),
        variants,
    }
}

#[test]
fn tagged_payloads_share_one_tag_enum() {
    let mut items = frozen_imports();
    items.push(tagged_enum(vec![
        tagged_variant("Dot", "Kind", "Small", VariantFields::Unit),
        tagged_variant("Box", "Kind", "Large", VariantFields::Unnamed(vec![plain("Extent")])),
    ]));
    items.push(registry(&[("shape", 1001)]));
    let (schemas, _) = read_corpus(&items).unwrap();
    match &schemas[0].kind {
        SchemaKind::TaggedEnum { tag, variants } => {
            assert_eq!(tag, "Kind");
            assert_eq!(variants.len(), 2);
            assert_eq!(variants[0].tag_variant, "Small");
            assert_eq!(variants[0].payload, None);
            assert_eq!(variants[1].payload, Some("Extent".to_string()));
        }
        other => panic!("unexpected {other:?}"),
    }

    // Two tag enums, a payload that is no schema, and no variant at all.
    for variants in [
        vec![
            tagged_variant("Dot", "Kind", "Small", VariantFields::Unit),
            tagged_variant("Box", "Other", "Large", VariantFields::Unit),
        ],
        vec![tagged_variant("Box", "Kind", "Large", VariantFields::Unnamed(vec![plain("u8")]))],
        vec![],
    ] {
        let mut items = frozen_imports();
        items.push(tagged_enum(variants));
        items.push(registry(&[("shape", 1001)]));
        assert_eq!(read_corpus(&items).err(), Some(CorpusError::Refused));
    }
}

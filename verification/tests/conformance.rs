use zero_schema::conformance::{
    metric_expr, obs_expr, Case, EnumVariant, Endian, Field, Gen, IntWidth, LayoutMetadata,
    LayoutOutput, Metric, MetricEntry, Model, Observation, ObservationEntry, Primitive, Root,
    RootRegistration, Schema, SchemaKind, Type, Value,
};
use zero_schema::frontend::{validate_model, ModelError};
use zero_schema::staging::{emit_abi, emit_value, layout_case_arms};

fn field(name: &str, ty: Type) -> Field {
    Field {
        name: name.to_string(),
        ty,
        endian: Endian::Native,
        align: None,
        capacity: None,
        len: None,
        tag_field: None,
    }
}

fn color() -> Schema {
    Schema {
        name: "Color".to_string(),
        kind: SchemaKind::ScalarEnum {
            repr: IntWidth::U16,
            endian: Endian::Big,
            variants: vec![
                EnumVariant { name: "Red".to_string(), raw: 1 },
                EnumVariant { name: "Green".to_string(), raw: 2 },
            ],
        },
        align: None,
    }
}

fn root(extra: Vec<Field>) -> Schema {
    let mut a = field("a", Type::Primitive(Primitive::U32));
    a.endian = Endian::Little;
    let mut fields = vec![a, field("c", Type::Schema("Color".to_string()))];
    fields.extend(extra);
    Schema {
        name: "Root".to_string(),
        kind: SchemaKind::Struct { fields },
        align: Some(8),
    }
}

fn case_ids() -> Vec<u32> {
    (1001..=1016).filter(|id| *id != 1009).collect()
}

fn case(id: u32) -> Case {
    Case {
        id,
        root_id: format!("root{id}"),
        root: Root::Schema("Root".to_string()),
        native: (1012..=1016).contains(&id),
        value: Value::Record(vec![]),
        layout: vec![MetricEntry { key: u64::from(id) * 1000 + 1, metric: Metric::RootSize }],
        observe: vec![ObservationEntry {
            key: u64::from(id) * 1000 + 501,
            source: Observation::Scalar(vec!["a".to_string()]),
        }],
    }
}

fn registrations() -> Vec<RootRegistration> {
    case_ids()
        .into_iter()
        .map(|id| RootRegistration { root_id: format!("root{id}"), case_id: id })
        .collect()
}

fn cases() -> Vec<Case> {
    case_ids().into_iter().map(case).collect()
}

fn model() -> Model {
    Model { schemas: vec![color(), root(vec![])], cases: vec![] }
}

fn generated(m: &Model) -> Gen<'_> {
    let mut g = Gen {
        m,
        names: vec![
            ("Color".to_string(), "color_t".to_string()),
            ("Root".to_string(), "root_t".to_string()),
        ],
        helpers: 0,
        decl: String::new(),
        asserts: String::new(),
        metas: vec![],
    };
    g.schema("Color");
    g.schema("Root");
    g
}

#[test]
fn generated_layout_declares_records_and_checks_every_member() {
    let m = model();
    let g = generated(&m);
    assert_eq!(
        g.decl,
        "struct alignas(alignof(std::uint16_t)) z0 { std::uint8_t m0[2]; };\n\
         using color_t = z0;\n\
         struct alignas(alignof(std::uint32_t)) z1 { std::uint8_t m0[4]; };\n\
         struct alignas(alignof(std::uint16_t)) z2 { std::uint8_t m0[2]; };\n\
         struct alignas(8) root_t {\n  z1 m0;\n  z2 m1;\n};\n"
    );
    assert_eq!(
        g.asserts,
        "static_assert(sizeof(z0)==2 && alignof(z0)==alignof(std::uint16_t));\n\
         static_assert(sizeof(z1)==4 && alignof(z1)==alignof(std::uint32_t));\n\
         static_assert(sizeof(z2)==2 && alignof(z2)==alignof(std::uint16_t));\n\
         static_assert(offsetof(root_t,m0) < sizeof(root_t));\n\
         static_assert(offsetof(root_t,m1) < sizeof(root_t));\n\
         static_assert(std::is_standard_layout<root_t>::value && std::is_trivially_copyable<root_t>::value);\n"
    );
    assert_eq!(g.helpers, 3);
    assert_eq!(g.metas.len(), 2);
    let root_meta = &g.metas[1];
    assert_eq!(root_meta.cpp, "root_t");
    assert_eq!(root_meta.size_expr, "sizeof(root_t)");
    assert_eq!(root_meta.align_expr, "alignof(root_t)");
    assert_eq!(root_meta.paths.len(), 2);
    assert_eq!(root_meta.paths[0].offset_expr, "offsetof(root_t, m0)");
    assert_eq!(root_meta.paths[0].width_expr, "sizeof(z1)");
    assert_eq!(root_meta.paths[0].unit_width, 4);
    assert_eq!(root_meta.paths[1].offset_expr, "offsetof(root_t, m1)");
    assert_eq!(root_meta.paths[1].unit_width, 2);
}

#[test]
fn lowered_field_names_its_member_and_wraps_declared_alignment() {
    let m = model();
    let mut g = Gen {
        m: &m,
        names: vec![("Root".to_string(), "root_t".to_string())],
        helpers: 5,
        decl: String::new(),
        asserts: String::new(),
        metas: vec![],
    };
    let mut f = field("flag", Type::Bool);
    f.align = Some(4);
    let (member, ty, meta) = g.lower_field("Root", 3, &f);
    assert_eq!(member, "m3");
    assert_eq!(ty, "z5");
    assert_eq!(
        g.decl,
        "struct alignas(((4) > (alignof(std::uint8_t)) ? (4) : (alignof(std::uint8_t)))) z5 { std::uint8_t m0; };\n"
    );
    assert_eq!(meta.offset_expr, "offsetof(root_t, m3)");
    assert_eq!(meta.width_expr, "sizeof(z5)");
    assert_eq!(meta.unit_width, 1);
    assert!(!meta.optional);
}

#[test]
fn metric_expressions_name_the_generated_members() {
    let m = model();
    let g = generated(&m);
    let md = LayoutMetadata { types: g.metas };
    let root_meta = &md.types[1];
    let expr = |x: Metric| metric_expr(&m, &md, root_meta, &x);
    assert_eq!(expr(Metric::RootSize), "sizeof(root_t)");
    assert_eq!(expr(Metric::RootAlign), "alignof(root_t)");
    assert_eq!(expr(Metric::FieldOffset("a".to_string())), "offsetof(root_t, m0)");
    assert_eq!(expr(Metric::FieldSize("c".to_string())), "sizeof(z2)");
    assert_eq!(expr(Metric::FieldAlign("a".to_string())), "alignof(decltype(root_t::m0))");
    assert_eq!(expr(Metric::EnumSize("c".to_string())), "sizeof(color_t)");
    assert_eq!(expr(Metric::EnumWidth("c".to_string())), "2");
    assert_eq!(expr(Metric::EnumEndian("c".to_string())), "2");
    assert_eq!(expr(Metric::EnumRaw("c".to_string())), "1");
}

#[test]
fn observations_read_bits_in_the_field_byte_order() {
    let m = model();
    let g = generated(&m);
    let layout = LayoutOutput {
        declarations: g.decl.clone(),
        assertions: g.asserts.clone(),
        layout_case_arms: String::new(),
        metadata: LayoutMetadata { types: g.metas },
    };
    assert_eq!(
        obs_expr(&m, &layout, "Root", &Observation::Scalar(vec!["a".to_string()])),
        "get_bits(in,input_len,(offsetof(root_t, m0)), 4, E_LITTLE, &value)"
    );
    assert_eq!(
        obs_expr(&m, &layout, "Root", &Observation::Scalar(vec!["c".to_string()])),
        "get_bits(in,input_len,(offsetof(root_t, m1)), 2, E_BIG, &value)"
    );
}

#[test]
fn a_complete_model_is_accepted() {
    let m = validate_model(vec![color(), root(vec![])], registrations(), cases()).unwrap();
    assert_eq!(m.schemas.len(), 2);
    assert_eq!(m.cases.len(), 15);
}

#[test]
fn optional_schema_fields_are_accepted_when_zero_is_invalid() {
    let optional = field("o", Type::Option(Box::new(Type::Schema("Color".to_string()))));
    assert!(validate_model(vec![color(), root(vec![optional])], registrations(), cases()).is_ok());
}

#[test]
fn model_rules_report_what_is_broken() {
    let mut short = cases();
    short.pop();
    assert_eq!(
        validate_model(vec![color(), root(vec![])], registrations(), short).unwrap_err(),
        ModelError::RootCount
    );

    let orphan = Schema {
        name: "Orphan".to_string(),
        kind: SchemaKind::ScalarEnum { repr: IntWidth::U8, endian: Endian::Native, variants: vec![] },
        align: None,
    };
    assert_eq!(
        validate_model(vec![color(), root(vec![]), orphan], registrations(), cases()).unwrap_err(),
        ModelError::UnusedSchema
    );

    let node = Schema {
        name: "Node".to_string(),
        kind: SchemaKind::Struct { fields: vec![field("back", Type::Schema("Root".to_string()))] },
        align: None,
    };
    let looped = root(vec![field("next", Type::Schema("Node".to_string()))]);
    assert_eq!(
        validate_model(vec![color(), looped, node], registrations(), cases()).unwrap_err(),
        ModelError::Cycle
    );

    let unknown = root(vec![field("x", Type::Schema("Missing".to_string()))]);
    assert_eq!(
        validate_model(vec![color(), unknown], registrations(), cases()).unwrap_err(),
        ModelError::UnknownSchema
    );

    let optional = field("o", Type::Option(Box::new(Type::Primitive(Primitive::U8))));
    assert_eq!(
        validate_model(vec![color(), root(vec![optional])], registrations(), cases()).unwrap_err(),
        ModelError::OptionNotZeroInvalid
    );

    let mut tagged = field("t", Type::Primitive(Primitive::U8));
    tagged.tag_field = Some("c".to_string());
    assert_eq!(
        validate_model(vec![color(), root(vec![tagged])], registrations(), cases()).unwrap_err(),
        ModelError::TagFieldNotOnPayload
    );

    let mut marked = cases();
    marked[0].native = true;
    assert_eq!(
        validate_model(vec![color(), root(vec![])], registrations(), marked).unwrap_err(),
        ModelError::NativeMarker
    );

    let mut shared = cases();
    shared[1].observe[0].key = 1_001_501;
    assert_eq!(
        validate_model(vec![color(), root(vec![])], registrations(), shared).unwrap_err(),
        ModelError::KeyNotUnique
    );

    let mut outside = cases();
    outside[0].layout[0].key = 1_001_600;
    assert_eq!(
        validate_model(vec![color(), root(vec![])], registrations(), outside).unwrap_err(),
        ModelError::KeyNamespace
    );

    let mut renamed = registrations();
    renamed[0].root_id = "other".to_string();
    assert_eq!(
        validate_model(vec![color(), root(vec![])], renamed, cases()).unwrap_err(),
        ModelError::RegistryMismatch
    );
}

#[test]
fn the_first_broken_rule_is_reported_schema_by_schema_and_case_by_case() {
    // A tagged payload whose tag is no scalar enum, declared before a record
    // that names an unknown schema: the earlier declaration is reported.
    let badly_tagged = Schema {
        name: "Payload".to_string(),
        kind: SchemaKind::TaggedEnum { tag: "Root".to_string(), variants: vec![] },
        align: None,
    };
    let unknown = root(vec![field("x", Type::Schema("Missing".to_string()))]);
    assert_eq!(
        validate_model(vec![color(), badly_tagged, unknown], registrations(), cases()).unwrap_err(),
        ModelError::TagNotScalarEnum
    );

    // A key outside the first case's namespace and a wrong native marker on a
    // later case: the first case is reported.
    let mut both = cases();
    both[0].layout[0].key = 1_001_600;
    both[1].native = true;
    assert_eq!(
        validate_model(vec![color(), root(vec![])], registrations(), both).unwrap_err(),
        ModelError::KeyNamespace
    );
}

#[test]
fn staged_values_write_each_field_at_its_generated_offset() {
    let optional = field("o", Type::Option(Box::new(Type::Schema("Color".to_string()))));
    let m = Model { schemas: vec![color(), root(vec![optional])], cases: vec![] };
    let g = generated(&m);
    let layout = LayoutOutput {
        declarations: g.decl.clone(),
        assertions: g.asserts.clone(),
        layout_case_arms: String::new(),
        metadata: LayoutMetadata { types: g.metas },
    };
    let value = Value::Record(vec![
        ("o".to_string(), Value::Absent),
        ("a".to_string(), Value::Bits(7)),
        (
            "c".to_string(),
            Value::Variant { ty: "Color".to_string(), variant: "Green".to_string() },
        ),
    ]);
    let mut out = String::from("// stage\n");
    emit_value(&mut out, &m, &layout, "Root", "0", &value);
    assert_eq!(
        out,
        "// stage\n\
         if(!put_bits(stage, byte_count, checked_add(0, (offsetof(root_t, m0)), &pos), 4, UINT64_C(7), E_LITTLE)) return INT;\n\
         if(!put_bits(stage,byte_count,checked_add(0, (offsetof(root_t, m1)), &pos), 2,UINT64_C(2),E_BIG))return INT;\n\
         if(!clear_span(stage,byte_count,checked_add(0, (offsetof(root_t, m2)), &pos),static_cast<std::size_t>(sizeof(z3))))return INT;\n"
    );
}

const NATIVE_CASE_IDS: [u32; 5] = [1012, 1013, 1014, 1015, 1016];

#[test]
fn native_option_case_block_is_complete_and_contiguous() {
    assert_eq!(NATIVE_CASE_IDS, [1012, 1013, 1014, 1015, 1016]);
    let accepted: Vec<u32> = cases().iter().filter(|c| c.native).map(|c| c.id).collect();
    assert_eq!(accepted, NATIVE_CASE_IDS);
    assert!(validate_model(vec![color(), root(vec![])], registrations(), cases()).is_ok());
    for index in 0..case_ids().len() {
        let mut flipped = cases();
        flipped[index].native = !flipped[index].native;
        assert_eq!(
            validate_model(vec![color(), root(vec![])], registrations(), flipped).unwrap_err(),
            ModelError::NativeMarker
        );
    }
}

#[test]
fn layout_arms_append_each_entry_of_each_case() {
    let mut first = case(1001);
    first.layout.push(MetricEntry { key: 1_001_002, metric: Metric::FieldOffset("a".to_string()) });
    let m = Model { schemas: vec![color(), root(vec![])], cases: vec![first, case(1002)] };
    let g = generated(&m);
    let md = LayoutMetadata { types: g.metas };
    assert_eq!(
        layout_case_arms(&m, &md),
        "case 1001: {\n  append(1001001, static_cast<std::uint64_t>(sizeof(root_t)));\n  \
         append(1001002, static_cast<std::uint64_t>(offsetof(root_t, m0)));\n  break; }\n\
         case 1002: {\n  append(1002001, static_cast<std::uint64_t>(sizeof(root_t)));\n  break; }\n"
    );
}

#[test]
fn foreign_entry_points_dispatch_every_case() {
    let m = Model { schemas: vec![color(), root(vec![])], cases: vec![case(1001), case(1002)] };
    let g = generated(&m);
    let md = LayoutMetadata { types: g.metas };
    let arms = layout_case_arms(&m, &md);
    let layout = LayoutOutput {
        declarations: g.decl.clone(),
        assertions: g.asserts.clone(),
        layout_case_arms: arms.clone(),
        metadata: md,
    };
    let mut out = String::new();
    emit_abi(&m, &layout, &mut out);
    assert!(out.starts_with("extern \"C\" std::uint8_t zs_layout_report(std::uint32_t id,"));
    assert!(out.contains("switch(id){case 1001:pairs=1;break;\ncase 1002:pairs=1;break;\ndefault:return UNK;}"));
    assert!(out.contains(&format!("switch(id){{{arms}default:return UNK;}}if(cursor!=n)return INT;")));
    assert!(out.contains(
        "switch(id){case 1001:n=static_cast<std::size_t>(sizeof(root_t));break;\n\
         case 1002:n=static_cast<std::size_t>(sizeof(root_t));break;\ndefault:return UNK;}if(cap<n)return CAP;"
    ));
    assert!(out.contains("case 1001:ok=write_1001(stage,n);break;\ncase 1002:ok=write_1002(stage,n);break;\n"));
    assert!(out.contains(
        "case 1002:n=static_cast<std::size_t>(sizeof(root_t));pairs=1;break;\ndefault:return UNK;}if(len!=n)return LEN;"
    ));
    assert!(out.contains("case 1001:ok=inspect_1001(in,len,stage);break;\n"));
    assert!(out.ends_with("*w=req;return OK;}\n"));
    assert_eq!(out.matches("extern \"C\"").count(), 3);
}

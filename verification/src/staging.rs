//! The C++ statements that stage a case's logical value into the bytes of
//! its fixture: one statement per scalar, byte, unit or cleared optional span,
//! each at the position the layout metadata gives for it.

use vstd::prelude::*;
use vstd::string::StringExecFns;

use crate::conformance::{
    metric_expr, metric_text, type_of, Case, LayoutMetadata, MetricEntry, Root,
    endian, endian_word, enum_variant_named, enum_variant_position, field_path, find_first,
    first_index, first_match, int_width_bytes, iw, lemma_first_match_absent,
    lemma_first_match_found, path_of, schema_of, tagged_variant_named, tagged_variant_position,
    Endian, Field, LayoutOutput, Model, PathMeta, SchemaKind, StringKind, Type, Value,
};
use crate::error::{decimal_string, decimal_text};

verus! {

/// Whether a named value carries the name `n`.
pub open spec fn value_named(n: Seq<char>) -> spec_fn((String, Value)) -> bool {
    |x: (String, Value)| x.0@ == n
}

/// The position `offset` bytes past `base`.
pub open spec fn at_text(base: Seq<char>, offset: Seq<char>) -> Seq<char> {
    "checked_add("@ + base + ", ("@ + offset + "), &pos)"@
}

/// Writes `value` as a scalar of `unit` bytes in order `e` at `pos`.
pub open spec fn scalar_write_text(pos: Seq<char>, unit: nat, value: nat, e: Endian) -> Seq<char> {
    "if(!put_bits(stage, byte_count, "@ + pos + ", "@ + decimal_text(unit) + ", UINT64_C("@
        + decimal_text(value) + "), "@ + endian_word(e) + ")) return INT;\n"@
}

/// Writes the raw value of an enum field.
pub open spec fn enum_field_text(pos: Seq<char>, width: nat, raw: nat, e: Endian) -> Seq<char> {
    "if(!put_bits(stage,byte_count,"@ + pos + ", "@ + decimal_text(width) + ",UINT64_C("@
        + decimal_text(raw) + "),"@ + endian_word(e) + "))return INT;\n"@
}

/// Writes the raw value of an enum array element.
pub open spec fn enum_element_text(pos: Seq<char>, width: nat, raw: nat, e: Endian) -> Seq<char> {
    "if(!put_bits(stage,byte_count,"@ + pos + ","@ + decimal_text(width) + ",UINT64_C("@
        + decimal_text(raw) + "),"@ + endian_word(e) + "))return INT;\n"@
}

/// Clears the whole span of an absent optional field.
pub open spec fn clear_text(pos: Seq<char>, width: Seq<char>) -> Seq<char> {
    "if(!clear_span(stage,byte_count,"@ + pos + ",static_cast<std::size_t>("@ + width
        + ")))return INT;\n"@
}

/// Stores the first `k` bytes of a fixed byte field.
pub open spec fn fixed_bytes_text(pos: Seq<char>, xs: Seq<u8>, k: int) -> Seq<char>
    decreases k,
{
    if k <= 0 {
        Seq::empty()
    } else {
        fixed_bytes_text(pos, xs, k - 1) + "stage["@ + pos + " + "@ + decimal_text((k - 1) as nat)
            + "]=UINT8_C("@ + decimal_text(xs[k - 1] as nat) + ");\n"@
    }
}

/// Stores the first `k` bytes of string data starting at `data`.
pub open spec fn string_bytes_text(data: Seq<char>, xs: Seq<u8>, k: int) -> Seq<char>
    decreases k,
{
    if k <= 0 {
        Seq::empty()
    } else {
        string_bytes_text(data, xs, k - 1) + "stage["@ + data + "+"@ + decimal_text((k - 1) as nat)
            + "]=UINT8_C("@ + decimal_text(xs[k - 1] as nat) + ");\n"@
    }
}

/// Stores the first `k` native-order units of string data starting at `data`.
pub open spec fn string_units_text(data: Seq<char>, us: Seq<u16>, k: int) -> Seq<char>
    decreases k,
{
    if k <= 0 {
        Seq::empty()
    } else {
        string_units_text(data, us, k - 1) + "if(!put_bits(stage,byte_count,"@ + data + "+"@
            + decimal_text((2 * (k - 1)) as nat) + ",2,UINT64_C("@ + decimal_text(us[k - 1] as nat)
            + "),E_NATIVE))return INT;\n"@
    }
}

/// Stages a string field at `pos`: its length prefix, if it has one, then
/// its bytes or units (of which no slice holds more than half the address
/// space).
pub open spec fn string_text(m: PathMeta, pos: Seq<char>, k: StringKind, bytes: Seq<u8>, units: Seq<u16>) -> Option<
    Seq<char>,
> {
    if units.len() > 0x7fff_ffff_ffff_ffff {
        None
    } else {
    match m.data_offset_expr {
        None => None,
        Some(data_offset) => {
            let data = "checked_add("@ + pos + ",(("@ + data_offset@ + ")-("@ + m.offset_expr@
                + ")),&pos)"@;
            let logical = if k is U16 || k is U16C {
                units.len()
            } else {
                bytes.len()
            };
            let length: Option<Seq<char>> = match m.len_width {
                None => Some(Seq::empty()),
                Some(w) => match (m.len_offset_expr, m.len_endian) {
                    (Some(lo), Some(le)) => Some(
                        "if(!put_bits(stage,byte_count,checked_add("@ + pos + ",((("@ + lo@ + ")-("@
                            + m.offset_expr@ + "))),&pos),"@ + decimal_text(int_width_bytes(w))
                            + ",UINT64_C("@ + decimal_text(logical) + "),"@ + endian_word(le)
                            + "))return INT;\n"@,
                    ),
                    _ => None,
                },
            };
            match length {
                Some(l) => Some(
                    l + string_bytes_text(data, bytes, bytes.len() as int) + string_units_text(
                        data,
                        units,
                        units.len() as int,
                    ),
                ),
                None => None,
            }
        },
    }
    }
}

/// The position of element `index` of an array field.
pub open spec fn element_pos(base: Seq<char>, m: PathMeta, index: nat) -> Seq<char> {
    at_text(
        base,
        "("@ + m.offset_expr@ + ")+UINT64_C("@ + decimal_text(index) + ")*("@
            + m.array_stride_expr->0@ + ")"@,
    )
}

/// The raw value of the enum variant named `variant` of scalar enum schema
/// `child`, with the enum's width and byte order.
pub open spec fn enum_raw(m: Model, child: Seq<char>, variant: Seq<char>) -> Option<(nat, nat, Endian)> {
    match schema_of(m, child) {
        Some(cs) => match cs.kind {
            SchemaKind::ScalarEnum { repr, endian, variants } => match find_first(
                variants@,
                enum_variant_named(variant),
            ) {
                Some(ev) => Some((int_width_bytes(repr), ev.raw as nat, endian)),
                None => None,
            },
            _ => None,
        },
        None => None,
    }
}

pub open spec fn append_opt(a: Option<Seq<char>>, b: Option<Seq<char>>) -> Option<Seq<char>> {
    match (a, b) {
        (Some(x), Some(y)) => Some(x + y),
        _ => None,
    }
}

/// The statements that stage value `v` of schema `schema` at `base`; `None`
/// where the value does not fit the schema or the metadata lacks a path.
pub open spec fn value_text(m: Model, lo: LayoutOutput, schema: Seq<char>, base: Seq<char>, v: Value) -> Option<
    Seq<char>,
>
    decreases v, 0nat, 0nat,
{
    match v {
        Value::Record(values) => record_text(m, lo, schema, base, values@),
        _ => None,
    }
}

/// The statements that stage the named values of a record of schema `schema`.
pub open spec fn record_text(
    m: Model,
    lo: LayoutOutput,
    schema: Seq<char>,
    base: Seq<char>,
    values: Seq<(String, Value)>,
) -> Option<Seq<char>>
    decreases values, 1nat, 0nat,
{
    match schema_of(m, schema) {
        Some(s) => match s.kind {
            SchemaKind::Struct { fields } => fields_text(
                m,
                lo,
                schema,
                base,
                fields@,
                values,
                fields@.len() as int,
            ),
            _ => None,
        },
        None => None,
    }
}

/// The statements for the first `k` fields, in declaration order.
pub open spec fn fields_text(
    m: Model,
    lo: LayoutOutput,
    schema: Seq<char>,
    base: Seq<char>,
    fields: Seq<Field>,
    values: Seq<(String, Value)>,
    k: int,
) -> Option<Seq<char>>
    decreases values, 0nat, k,
{
    if k <= 0 || k > fields.len() {
        Some(Seq::empty())
    } else {
        append_opt(
            fields_text(m, lo, schema, base, fields, values, k - 1),
            field_text(m, lo, schema, base, fields[k - 1], values),
        )
    }
}

/// The statements for field `f`, whose value is the first one named after it.
pub open spec fn field_text(
    m: Model,
    lo: LayoutOutput,
    schema: Seq<char>,
    base: Seq<char>,
    f: Field,
    values: Seq<(String, Value)>,
) -> Option<Seq<char>>
    decreases values, 0nat, 0nat,
{
    match first_index(values, value_named(f.name@)) {
        None => None,
        Some(i) => match path_of(lo.metadata, schema, f.name@) {
            None => None,
            Some(meta) => match f.ty {
                Type::Option(inner) => match values[i].1 {
                    Value::Absent => Some(
                        clear_text(at_text(base, meta.offset_expr@), meta.width_expr@),
                    ),
                    Value::Present(x) => typed_text(m, lo, base, values, f, *inner, *x, meta),
                    _ => None,
                },
                _ => typed_text(m, lo, base, values, f, f.ty, values[i].1, meta),
            },
        },
    }
}

/// The statements for value `x` of a field stored as type `ty`.
pub open spec fn typed_text(
    m: Model,
    lo: LayoutOutput,
    base: Seq<char>,
    values: Seq<(String, Value)>,
    f: Field,
    ty: Type,
    x: Value,
    meta: PathMeta,
) -> Option<Seq<char>>
    decreases x, 1nat, 0nat,
{
    let b = at_text(base, meta.offset_expr@);
    match ty {
        Type::Primitive(_) => match x {
            Value::Bits(n) => Some(scalar_write_text(b, meta.unit_width as nat, n as nat, meta.endian)),
            _ => None,
        },
        Type::Bool => match x {
            Value::Boolean(t) => Some(
                scalar_write_text(
                    b,
                    meta.unit_width as nat,
                    if t {
                        1
                    } else {
                        0
                    },
                    meta.endian,
                ),
            ),
            _ => None,
        },
        Type::FixedBytes(n) => match x {
            Value::Bytes(xs) => if xs@.len() == n {
                Some(fixed_bytes_text(b, xs@, n as int))
            } else {
                None
            },
            _ => None,
        },
        Type::Array { element, length } => match x {
            Value::Array(items) => if items@.len() == length && meta.array_stride_expr is Some {
                array_text(m, lo, base, *element, meta, items@, items@.len() as int)
            } else {
                None
            },
            _ => None,
        },
        Type::String(k) => match x {
            Value::Bytes(xs) => string_text(meta, b, k, xs@, Seq::empty()),
            Value::Units(us) => string_text(meta, b, k, Seq::empty(), us@),
            _ => None,
        },
        Type::Schema(child) => match schema_of(m, child@) {
            None => None,
            Some(cs) => match cs.kind {
                SchemaKind::ScalarEnum { .. } => match x {
                    Value::Variant { variant, .. } => match enum_raw(m, child@, variant@) {
                        Some((width, raw, e)) => Some(enum_field_text(b, width, raw, e)),
                        None => None,
                    },
                    _ => None,
                },
                SchemaKind::TaggedEnum { tag, variants } => match f.tag_field {
                    None => None,
                    Some(tf) => match x {
                        Value::Union { variant, fields, .. } => match find_first(
                            variants@,
                            tagged_variant_named(variant@),
                        ) {
                            None => None,
                            Some(selected) => match find_first(values, value_named(tf@)) {
                                None => None,
                                Some(tv) => match tv.1 {
                                    Value::Variant { ty: tag_ty, variant: tag_variant } => if tag_ty@
                                        == tag@ && tag_variant@ == selected.tag_variant@ {
                                        match selected.payload {
                                            Some(p) => record_text(m, lo, p@, b, fields@),
                                            None => Some(Seq::empty()),
                                        }
                                    } else {
                                        None
                                    },
                                    _ => None,
                                },
                            },
                        },
                        _ => None,
                    },
                },
                SchemaKind::Struct { .. } => value_text(m, lo, child@, b, x),
            },
        },
        Type::Option(_) => None,
    }
}

/// The statements for the first `j` elements of an array field.
pub open spec fn array_text(
    m: Model,
    lo: LayoutOutput,
    base: Seq<char>,
    element: Type,
    meta: PathMeta,
    items: Seq<Value>,
    j: int,
) -> Option<Seq<char>>
    decreases items, 0nat, j,
{
    if j <= 0 || j > items.len() {
        Some(Seq::empty())
    } else {
        append_opt(
            array_text(m, lo, base, element, meta, items, j - 1),
            element_text(m, lo, base, element, meta, (j - 1) as nat, items[j - 1]),
        )
    }
}

/// The statements for element `index`, holding `e`, of an array field.
pub open spec fn element_text(
    m: Model,
    lo: LayoutOutput,
    base: Seq<char>,
    element: Type,
    meta: PathMeta,
    index: nat,
    e: Value,
) -> Option<Seq<char>>
    decreases e, 1nat, 0nat,
{
    let pos = element_pos(base, meta, index);
    match element {
        Type::Primitive(_) => match e {
            Value::Bits(n) => Some(scalar_write_text(pos, meta.unit_width as nat, n as nat, meta.endian)),
            _ => None,
        },
        Type::Bool => match e {
            Value::Boolean(t) => Some(
                scalar_write_text(
                    pos,
                    meta.unit_width as nat,
                    if t {
                        1
                    } else {
                        0
                    },
                    meta.endian,
                ),
            ),
            _ => None,
        },
        Type::Schema(child) => match e {
            Value::Variant { variant, .. } => match enum_raw(m, child@, variant@) {
                Some((width, raw, order)) => Some(enum_element_text(pos, width, raw, order)),
                None => None,
            },
            _ => value_text(m, lo, child@, pos, e),
        },
        _ => None,
    }
}

proof fn lemma_fields_prefix(
    m: Model,
    lo: LayoutOutput,
    schema: Seq<char>,
    base: Seq<char>,
    fields: Seq<Field>,
    values: Seq<(String, Value)>,
    k: int,
    n: int,
)
    requires
        0 <= k <= n <= fields.len(),
        fields_text(m, lo, schema, base, fields, values, n) is Some,
    ensures
        fields_text(m, lo, schema, base, fields, values, k) is Some,
    decreases n - k,
{
    if k < n {
        lemma_fields_prefix(m, lo, schema, base, fields, values, k, n - 1);
    }
}

proof fn lemma_array_prefix(
    m: Model,
    lo: LayoutOutput,
    base: Seq<char>,
    element: Type,
    meta: PathMeta,
    items: Seq<Value>,
    k: int,
    n: int,
)
    requires
        0 <= k <= n <= items.len(),
        array_text(m, lo, base, element, meta, items, n) is Some,
    ensures
        array_text(m, lo, base, element, meta, items, k) is Some,
    decreases n - k,
{
    if k < n {
        lemma_array_prefix(m, lo, base, element, meta, items, k, n - 1);
    }
}

/// The position of the first value named `n`.
fn value_position(values: &Vec<(String, Value)>, n: &str) -> (r: Option<usize>)
    ensures
        r matches Some(i) ==> first_match(values@, value_named(n@), i as int),
        r is None ==> forall|j: int| 0 <= j < values@.len() ==> !value_named(n@)(#[trigger] values@[j]),
{
    let mut i: usize = 0;
    while i < values.len()
        invariant
            i <= values@.len(),
            forall|j: int| 0 <= j < i ==> !value_named(n@)(#[trigger] values@[j]),
        decreases values@.len() - i,
    {
        if crate::conformance::same_text(values[i].0.as_str(), n) {
            return Some(i);
        }
        i += 1;
    }
    None
}

/// The position `offset` bytes past `base`.
fn at(base: &str, offset: &str) -> (r: String)
    ensures
        r@ == at_text(base@, offset@),
{
    let mut r = String::from_str("checked_add(");
    r.append(base);
    r.append(", (");
    r.append(offset);
    r.append("), &pos)");
    r
}

fn scalar_write(out: &mut String, pos: &str, unit: u32, value: u64, e: Endian)
    ensures
        final(out)@ == old(out)@ + scalar_write_text(pos@, unit as nat, value as nat, e),
{
    out.append("if(!put_bits(stage, byte_count, ");
    out.append(pos);
    out.append(", ");
    out.append(decimal_string(unit as u64).as_str());
    out.append(", UINT64_C(");
    out.append(decimal_string(value).as_str());
    out.append("), ");
    out.append(endian(e));
    out.append(")) return INT;\n");
}

fn enum_write(out: &mut String, pos: &str, width: u64, raw: u64, e: Endian, field: bool)
    ensures
        final(out)@ == old(out)@ + if field {
            enum_field_text(pos@, width as nat, raw as nat, e)
        } else {
            enum_element_text(pos@, width as nat, raw as nat, e)
        },
{
    out.append("if(!put_bits(stage,byte_count,");
    out.append(pos);
    if field {
        out.append(", ");
    } else {
        out.append(",");
    }
    out.append(decimal_string(width).as_str());
    out.append(",UINT64_C(");
    out.append(decimal_string(raw).as_str());
    out.append("),");
    out.append(endian(e));
    out.append("))return INT;\n");
}

fn emit_fixed_bytes(out: &mut String, pos: &str, xs: &Vec<u8>)
    ensures
        final(out)@ == old(out)@ + fixed_bytes_text(pos@, xs@, xs@.len() as int),
{
    let ghost start = out@;
    let mut i: usize = 0;
    while i < xs.len()
        invariant
            i <= xs@.len(),
            out@ == start + fixed_bytes_text(pos@, xs@, i as int),
        decreases xs@.len() - i,
    {
        out.append("stage[");
        out.append(pos);
        out.append(" + ");
        out.append(decimal_string(i as u64).as_str());
        out.append("]=UINT8_C(");
        out.append(decimal_string(xs[i] as u64).as_str());
        out.append(");\n");
        i += 1;
    }
}

fn string_bytes(out: &mut String, data: &str, bytes: &[u8])
    ensures
        final(out)@ == old(out)@ + string_bytes_text(data@, bytes@, bytes@.len() as int),
{
    let ghost start = out@;
    let mut i: usize = 0;
    while i < bytes.len()
        invariant
            i <= bytes@.len(),
            out@ == start + string_bytes_text(data@, bytes@, i as int),
        decreases bytes@.len() - i,
    {
        out.append("stage[");
        out.append(data);
        out.append("+");
        out.append(decimal_string(i as u64).as_str());
        out.append("]=UINT8_C(");
        out.append(decimal_string(bytes[i] as u64).as_str());
        out.append(");\n");
        i += 1;
    }
}

fn string_units(out: &mut String, data: &str, units: &[u16])
    requires
        units@.len() <= 0x7fff_ffff_ffff_ffff,
    ensures
        final(out)@ == old(out)@ + string_units_text(data@, units@, units@.len() as int),
{
    let ghost start = out@;
    let mut i: usize = 0;
    while i < units.len()
        invariant
            i <= units@.len(),
            units@.len() <= 0x7fff_ffff_ffff_ffff,
            out@ == start + string_units_text(data@, units@, i as int),
        decreases units@.len() - i,
    {
        out.append("if(!put_bits(stage,byte_count,");
        out.append(data);
        out.append("+");
        out.append(decimal_string((i as u64) * 2).as_str());
        out.append(",2,UINT64_C(");
        out.append(decimal_string(units[i] as u64).as_str());
        out.append("),E_NATIVE))return INT;\n");
        i += 1;
    }
}

/// The length statement of a length-prefixed string.
fn length_line(pos: &str, offset: &str, lo: &str, width: u64, logical: u64, le: Endian) -> (r: String)
    ensures
        r@ == "if(!put_bits(stage,byte_count,checked_add("@ + pos@ + ",((("@ + lo@ + ")-("@
            + offset@ + "))),&pos),"@ + decimal_text(width as nat) + ",UINT64_C("@ + decimal_text(
            logical as nat,
        ) + "),"@ + endian_word(le) + "))return INT;\n"@,
{
    let mut r = String::from_str("if(!put_bits(stage,byte_count,checked_add(");
    r.append(pos);
    r.append(",(((");
    r.append(lo);
    r.append(")-(");
    r.append(offset);
    r.append("))),&pos),");
    r.append(decimal_string(width).as_str());
    r.append(",UINT64_C(");
    r.append(decimal_string(logical).as_str());
    r.append("),");
    r.append(endian(le));
    r.append("))return INT;\n");
    r
}

/// Stages a string field at `pos`.
#[verifier::spinoff_prover]
fn emit_string(out: &mut String, m: &PathMeta, pos: &str, k: StringKind, bytes: &[u8], units: &[u16])
    requires
        string_text(*m, pos@, k, bytes@, units@) is Some,
    ensures
        final(out)@ == old(out)@ + string_text(*m, pos@, k, bytes@, units@)->0,
{
    let data_offset = match &m.data_offset_expr {
        Some(d) => d,
        None => vstd::pervasive::unreached(),
    };
    let mut data = String::from_str("checked_add(");
    data.append(pos);
    data.append(",((");
    data.append(data_offset.as_str());
    data.append(")-(");
    data.append(m.offset_expr.as_str());
    data.append(")),&pos)");
    let logical: usize = match k {
        StringKind::U16 | StringKind::U16C => units.len(),
        _ => bytes.len(),
    };
    let length = match m.len_width {
        Some(w) => {
            let lo = match &m.len_offset_expr {
                Some(lo) => lo,
                None => vstd::pervasive::unreached(),
            };
            let le = match m.len_endian {
                Some(le) => le,
                None => vstd::pervasive::unreached(),
            };
            length_line(pos, m.offset_expr.as_str(), lo.as_str(), iw(w), logical as u64, le)
        },
        None => String::new(),
    };
    out.append(length.as_str());
    string_bytes(out, data.as_str(), bytes);
    string_units(out, data.as_str(), units);
}

/// The position of element `index` of an array field.
fn element_position(base: &str, meta: &PathMeta, index: usize) -> (r: String)
    requires
        meta.array_stride_expr is Some,
    ensures
        r@ == element_pos(base@, *meta, index as nat),
{
    let stride = match &meta.array_stride_expr {
        Some(s) => s,
        None => vstd::pervasive::unreached(),
    };
    let mut offset = String::from_str("(");
    offset.append(meta.offset_expr.as_str());
    offset.append(")+UINT64_C(");
    offset.append(decimal_string(index as u64).as_str());
    offset.append(")*(");
    offset.append(stride.as_str());
    offset.append(")");
    at(base, offset.as_str())
}

/// The raw value, width and byte order of an enum variant.
fn enum_raw_exec(model: &Model, child: &str, variant: &str) -> (r: (u64, u64, Endian))
    requires
        enum_raw(*model, child@, variant@) is Some,
    ensures
        enum_raw(*model, child@, variant@) == Some((r.0 as nat, r.1 as nat, r.2)),
{
    let cs = model.schema(child);
    match &cs.kind {
        SchemaKind::ScalarEnum { repr, endian: order, variants } => {
            match enum_variant_position(variants, variant) {
                Some(vi) => {
                    proof {
                        lemma_first_match_found(variants@, enum_variant_named(variant@), vi as int);
                    }
                    (iw(*repr), variants[vi].raw, *order)
                },
                None => {
                    proof {
                        lemma_first_match_absent(variants@, enum_variant_named(variant@));
                    }
                    vstd::pervasive::unreached()
                },
            }
        },
        _ => vstd::pervasive::unreached(),
    }
}

/// Appends the statements that stage `value` of schema `schema` at `base`.
/// The value must fit the schema and the metadata must hold every path it
/// needs.
pub fn emit_value(
    out: &mut String,
    model: &Model,
    layout: &LayoutOutput,
    schema: &str,
    base: &str,
    value: &Value,
)
    requires
        value_text(*model, *layout, schema@, base@, *value) is Some,
    ensures
        final(out)@ == old(out)@ + value_text(*model, *layout, schema@, base@, *value)->0,
    decreases value, 0nat, 0nat,
{
    match value {
        Value::Record(values) => emit_record(out, model, layout, schema, base, values),
        _ => vstd::pervasive::unreached(),
    }
}

/// Appends the statements for the named values of a record.
#[verifier::spinoff_prover]
fn emit_record(
    out: &mut String,
    model: &Model,
    layout: &LayoutOutput,
    schema: &str,
    base: &str,
    values: &Vec<(String, Value)>,
)
    requires
        record_text(*model, *layout, schema@, base@, values@) is Some,
    ensures
        final(out)@ == old(out)@ + record_text(*model, *layout, schema@, base@, values@)->0,
    decreases values@, 1nat, 0nat,
{
    let ghost start = out@;
    let s = model.schema(schema);
    let fields = match &s.kind {
        SchemaKind::Struct { fields } => fields,
        _ => vstd::pervasive::unreached(),
    };
    let mut k: usize = 0;
    while k < fields.len()
        invariant
            k <= fields@.len(),
            s.kind == (SchemaKind::Struct { fields: *fields }),
            schema_of(*model, schema@) == Some(*s),
            record_text(*model, *layout, schema@, base@, values@) is Some,
            fields_text(*model, *layout, schema@, base@, fields@, values@, k as int) is Some,
            out@ == start + fields_text(*model, *layout, schema@, base@, fields@, values@, k as int)->0,
        decreases fields@.len() - k,
    {
        proof {
            lemma_fields_prefix(
                *model,
                *layout,
                schema@,
                base@,
                fields@,
                values@,
                k + 1,
                fields@.len() as int,
            );
        }
        emit_field(out, model, layout, schema, base, &fields[k], values);
        k += 1;
    }
}

/// Appends the statements for one field of a record.
#[verifier::spinoff_prover]
fn emit_field(
    out: &mut String,
    model: &Model,
    layout: &LayoutOutput,
    schema: &str,
    base: &str,
    f: &Field,
    values: &Vec<(String, Value)>,
)
    requires
        field_text(*model, *layout, schema@, base@, *f, values@) is Some,
    ensures
        final(out)@ == old(out)@ + field_text(*model, *layout, schema@, base@, *f, values@)->0,
    decreases values@, 0nat, 0nat,
{
    let i = match value_position(values, f.name.as_str()) {
        Some(i) => {
            proof {
                lemma_first_match_found(values@, value_named(f.name@), i as int);
            }
            i
        },
        None => {
            proof {
                lemma_first_match_absent(values@, value_named(f.name@));
            }
            return vstd::pervasive::unreached();
        },
    };
    let meta = field_path(&layout.metadata, schema, &f.name);
    let v = &values[i].1;
    match &f.ty {
        Type::Option(inner) => match v {
            Value::Absent => {
                let b = at(base, meta.offset_expr.as_str());
                out.append("if(!clear_span(stage,byte_count,");
                out.append(b.as_str());
                out.append(",static_cast<std::size_t>(");
                out.append(meta.width_expr.as_str());
                out.append(")))return INT;\n");
            },
            Value::Present(x) => emit_typed(out, model, layout, base, values, f, &**inner, &**x, meta),
            _ => vstd::pervasive::unreached(),
        },
        _ => emit_typed(out, model, layout, base, values, f, &f.ty, v, meta),
    }
}

/// Appends the statements for value `x` of field `f` stored as `ty`.
#[verifier::spinoff_prover]
fn emit_typed(
    out: &mut String,
    model: &Model,
    layout: &LayoutOutput,
    base: &str,
    values: &Vec<(String, Value)>,
    f: &Field,
    ty: &Type,
    x: &Value,
    meta: &PathMeta,
)
    requires
        typed_text(*model, *layout, base@, values@, *f, *ty, *x, *meta) is Some,
    ensures
        final(out)@ == old(out)@ + typed_text(*model, *layout, base@, values@, *f, *ty, *x, *meta)->0,
    decreases x, 1nat, 0nat,
{
    let b = at(base, meta.offset_expr.as_str());
    match ty {
        Type::Primitive(_) => match x {
            Value::Bits(n) => scalar_write(out, b.as_str(), meta.unit_width, *n, meta.endian),
            _ => vstd::pervasive::unreached(),
        },
        Type::Bool => match x {
            Value::Boolean(t) => scalar_write(
                out,
                b.as_str(),
                meta.unit_width,
                if *t {
                    1
                } else {
                    0
                },
                meta.endian,
            ),
            _ => vstd::pervasive::unreached(),
        },
        Type::FixedBytes(_) => match x {
            Value::Bytes(xs) => emit_fixed_bytes(out, b.as_str(), xs),
            _ => vstd::pervasive::unreached(),
        },
        Type::Array { element, .. } => match x {
            Value::Array(items) => emit_array(out, model, layout, base, &**element, meta, items),
            _ => vstd::pervasive::unreached(),
        },
        Type::String(k) => match x {
            Value::Bytes(xs) => emit_string(out, meta, b.as_str(), *k, xs.as_slice(), &[]),
            Value::Units(us) => emit_string(out, meta, b.as_str(), *k, &[], us.as_slice()),
            _ => vstd::pervasive::unreached(),
        },
        Type::Schema(child) => {
            let cs = model.schema(child.as_str());
            match &cs.kind {
                SchemaKind::ScalarEnum { .. } => match x {
                    Value::Variant { variant, .. } => {
                        let (width, raw, order) = enum_raw_exec(model, child.as_str(), variant.as_str());
                        enum_write(out, b.as_str(), width, raw, order, true);
                    },
                    _ => vstd::pervasive::unreached(),
                },
                SchemaKind::TaggedEnum { variants, .. } => match x {
                    Value::Union { variant, fields, .. } => {
                        let si = match tagged_variant_position(variants, variant.as_str()) {
                            Some(si) => {
                                proof {
                                    lemma_first_match_found(
                                        variants@,
                                        tagged_variant_named(variant@),
                                        si as int,
                                    );
                                }
                                si
                            },
                            None => {
                                proof {
                                    lemma_first_match_absent(variants@, tagged_variant_named(variant@));
                                }
                                return vstd::pervasive::unreached();
                            },
                        };
                        match &variants[si].payload {
                            Some(p) => emit_record(out, model, layout, p.as_str(), b.as_str(), fields),
                            None => {},
                        }
                    },
                    _ => vstd::pervasive::unreached(),
                },
                SchemaKind::Struct { .. } => emit_value(out, model, layout, child.as_str(), b.as_str(), x),
            }
        },
        Type::Option(_) => vstd::pervasive::unreached(),
    }
}

/// Appends the statements for every element of an array field.
fn emit_array(
    out: &mut String,
    model: &Model,
    layout: &LayoutOutput,
    base: &str,
    element: &Type,
    meta: &PathMeta,
    items: &Vec<Value>,
)
    requires
        meta.array_stride_expr is Some,
        array_text(*model, *layout, base@, *element, *meta, items@, items@.len() as int) is Some,
    ensures
        final(out)@ == old(out)@ + array_text(
            *model,
            *layout,
            base@,
            *element,
            *meta,
            items@,
            items@.len() as int,
        )->0,
    decreases items@, 0nat, 1nat,
{
    let ghost start = out@;
    let mut j: usize = 0;
    while j < items.len()
        invariant
            j <= items@.len(),
            meta.array_stride_expr is Some,
            array_text(*model, *layout, base@, *element, *meta, items@, items@.len() as int) is Some,
            array_text(*model, *layout, base@, *element, *meta, items@, j as int) is Some,
            out@ == start + array_text(*model, *layout, base@, *element, *meta, items@, j as int)->0,
        decreases items@.len() - j,
    {
        proof {
            lemma_array_prefix(
                *model,
                *layout,
                base@,
                *element,
                *meta,
                items@,
                j + 1,
                items@.len() as int,
            );
        }
        emit_element(out, model, layout, base, element, meta, j, &items[j]);
        j += 1;
    }
}

/// Appends the statements for element `index`, holding `e`, of an array field.
#[verifier::spinoff_prover]
fn emit_element(
    out: &mut String,
    model: &Model,
    layout: &LayoutOutput,
    base: &str,
    element: &Type,
    meta: &PathMeta,
    index: usize,
    e: &Value,
)
    requires
        meta.array_stride_expr is Some,
        element_text(*model, *layout, base@, *element, *meta, index as nat, *e) is Some,
    ensures
        final(out)@ == old(out)@ + element_text(
            *model,
            *layout,
            base@,
            *element,
            *meta,
            index as nat,
            *e,
        )->0,
    decreases e, 1nat, 0nat,
{
    let pos = element_position(base, meta, index);
    match element {
        Type::Primitive(_) => match e {
            Value::Bits(n) => scalar_write(out, pos.as_str(), meta.unit_width, *n, meta.endian),
            _ => vstd::pervasive::unreached(),
        },
        Type::Bool => match e {
            Value::Boolean(t) => scalar_write(
                out,
                pos.as_str(),
                meta.unit_width,
                if *t {
                    1
                } else {
                    0
                },
                meta.endian,
            ),
            _ => vstd::pervasive::unreached(),
        },
        Type::Schema(child) => match e {
            Value::Variant { variant, .. } => {
                let (width, raw, order) = enum_raw_exec(model, child.as_str(), variant.as_str());
                enum_write(out, pos.as_str(), width, raw, order, false);
            },
            _ => emit_value(out, model, layout, child.as_str(), pos.as_str(), e),
        },
        _ => vstd::pervasive::unreached(),
    }
}

/// The name of a case's root schema.
pub open spec fn case_root(c: Case) -> Seq<char> {
    match c.root {
        Root::Schema(n) => n@,
    }
}

/// The report statements for the first `k` layout entries of a case whose
/// root type is `root`.
pub open spec fn entries_text(
    m: Model,
    md: LayoutMetadata,
    root: crate::conformance::TypeMeta,
    entries: Seq<MetricEntry>,
    k: int,
) -> Option<Seq<char>>
    decreases k,
{
    if k <= 0 || k > entries.len() {
        Some(Seq::empty())
    } else {
        append_opt(
            entries_text(m, md, root, entries, k - 1),
            match metric_text(m, md, root, entries[k - 1].metric) {
                Some(v) => Some(
                    "  append("@ + decimal_text(entries[k - 1].key as nat)
                        + ", static_cast<std::uint64_t>("@ + v + "));\n"@,
                ),
                None => None,
            },
        )
    }
}

/// The layout report arm of one case.
pub open spec fn case_arm_text(m: Model, md: LayoutMetadata, c: Case) -> Option<Seq<char>> {
    match type_of(md, case_root(c)) {
        Some(root) => match entries_text(m, md, root, c.layout@, c.layout@.len() as int) {
            Some(body) => Some("case "@ + decimal_text(c.id as nat) + ": {\n"@ + body + "  break; }\n"@),
            None => None,
        },
        None => None,
    }
}

/// The layout report arms of the first `k` cases.
pub open spec fn case_arms_text(m: Model, md: LayoutMetadata, cases: Seq<Case>, k: int) -> Option<Seq<char>>
    decreases k,
{
    if k <= 0 || k > cases.len() {
        Some(Seq::empty())
    } else {
        append_opt(case_arms_text(m, md, cases, k - 1), case_arm_text(m, md, cases[k - 1]))
    }
}

proof fn lemma_entries_prefix(
    m: Model,
    md: LayoutMetadata,
    root: crate::conformance::TypeMeta,
    entries: Seq<MetricEntry>,
    k: int,
    n: int,
)
    requires
        0 <= k <= n <= entries.len(),
        entries_text(m, md, root, entries, n) is Some,
    ensures
        entries_text(m, md, root, entries, k) is Some,
    decreases n - k,
{
    if k < n {
        lemma_entries_prefix(m, md, root, entries, k, n - 1);
    }
}

proof fn lemma_arms_prefix(m: Model, md: LayoutMetadata, cases: Seq<Case>, k: int, n: int)
    requires
        0 <= k <= n <= cases.len(),
        case_arms_text(m, md, cases, n) is Some,
    ensures
        case_arms_text(m, md, cases, k) is Some,
    decreases n - k,
{
    if k < n {
        lemma_arms_prefix(m, md, cases, k, n - 1);
    }
}

/// Appends the layout report arm of one case: one `append` of each layout
/// entry's key and metric expression.
#[verifier::spinoff_prover]
fn case_arm(out: &mut String, m: &Model, md: &LayoutMetadata, c: &Case)
    requires
        case_arm_text(*m, *md, *c) is Some,
    ensures
        final(out)@ == old(out)@ + case_arm_text(*m, *md, *c)->0,
{
    let name = match &c.root {
        Root::Schema(n) => n,
    };
    let root = md.ty(name.as_str());
    let ghost start = out@;
    out.append("case ");
    out.append(decimal_string(c.id as u64).as_str());
    out.append(": {\n");
    let ghost head = out@;
    let mut k: usize = 0;
    while k < c.layout.len()
        invariant
            k <= c.layout@.len(),
            type_of(*md, case_root(*c)) == Some(*root),
            entries_text(*m, *md, *root, c.layout@, c.layout@.len() as int) is Some,
            entries_text(*m, *md, *root, c.layout@, k as int) is Some,
            out@ == head + entries_text(*m, *md, *root, c.layout@, k as int)->0,
        decreases c.layout@.len() - k,
    {
        proof {
            lemma_entries_prefix(*m, *md, *root, c.layout@, k + 1, c.layout@.len() as int);
        }
        let e = &c.layout[k];
        let v = metric_expr(m, md, root, &e.metric);
        out.append("  append(");
        out.append(decimal_string(e.key).as_str());
        out.append(", static_cast<std::uint64_t>(");
        out.append(v.as_str());
        out.append("));\n");
        k += 1;
    }
    out.append("  break; }\n");
}

/// The layout report arms of every case, in case order.
pub fn layout_case_arms(m: &Model, md: &LayoutMetadata) -> (r: String)
    requires
        case_arms_text(*m, *md, m.cases@, m.cases@.len() as int) is Some,
    ensures
        r@ == case_arms_text(*m, *md, m.cases@, m.cases@.len() as int)->0,
{
    let mut out = String::new();
    let mut k: usize = 0;
    while k < m.cases.len()
        invariant
            k <= m.cases@.len(),
            case_arms_text(*m, *md, m.cases@, m.cases@.len() as int) is Some,
            case_arms_text(*m, *md, m.cases@, k as int) is Some,
            out@ == case_arms_text(*m, *md, m.cases@, k as int)->0,
        decreases m.cases@.len() - k,
    {
        proof {
            lemma_arms_prefix(*m, *md, m.cases@, k + 1, m.cases@.len() as int);
        }
        case_arm(&mut out, m, md, &m.cases[k]);
        k += 1;
    }
    out
}

/// One dispatch line of the foreign entry points for case `c`; `which`
/// selects the line: report pairs, fixture size, fixture writer, inspection
/// size and pairs, or inspector.
pub open spec fn dispatch_line(md: LayoutMetadata, c: Case, which: nat) -> Option<Seq<char>> {
    let id = decimal_text(c.id as nat);
    match type_of(md, case_root(c)) {
        Some(t) => Some(
            if which == 0 {
                "case "@ + id + ":pairs="@ + decimal_text(c.layout@.len()) + ";break;\n"@
            } else if which == 1 {
                "case "@ + id + ":n=static_cast<std::size_t>("@ + t.size_expr@ + ");break;\n"@
            } else if which == 2 {
                "case "@ + id + ":ok=write_"@ + id + "(stage,n);break;\n"@
            } else if which == 3 {
                "case "@ + id + ":n=static_cast<std::size_t>("@ + t.size_expr@ + ");pairs="@
                    + decimal_text(c.observe@.len()) + ";break;\n"@
            } else {
                "case "@ + id + ":ok=inspect_"@ + id + "(in,len,stage);break;\n"@
            },
        ),
        None => None,
    }
}

/// The dispatch lines of kind `which` for the first `k` cases.
pub open spec fn dispatch_text(md: LayoutMetadata, cases: Seq<Case>, which: nat, k: int) -> Option<Seq<char>>
    decreases k,
{
    if k <= 0 || k > cases.len() {
        Some(Seq::empty())
    } else {
        append_opt(dispatch_text(md, cases, which, k - 1), dispatch_line(md, cases[k - 1], which))
    }
}

/// The three foreign entry points: the layout report, the fixture writer and
/// the fixture inspector, each dispatching on the case identity.
pub open spec fn abi_text(m: Model, lo: LayoutOutput) -> Option<Seq<char>> {
    let n = m.cases@.len() as int;
    match (
        dispatch_text(lo.metadata, m.cases@, 0, n),
        dispatch_text(lo.metadata, m.cases@, 1, n),
        dispatch_text(lo.metadata, m.cases@, 2, n),
        dispatch_text(lo.metadata, m.cases@, 3, n),
        dispatch_text(lo.metadata, m.cases@, 4, n),
    ) {
        (Some(pairs), Some(sizes), Some(writers), Some(inspections), Some(inspectors)) => Some(
            "extern \"C\" std::uint8_t zs_layout_report(std::uint32_t id,std::uint64_t*out,std::size_t cap,std::size_t*w)noexcept{using namespace zs_codec;if(!aligned(w,alignof(std::size_t)))return NW;*w=0;std::size_t pairs=0;switch(id){"@ + pairs + "default:return UNK;}if(pairs>(SIZE_MAX-3)/2)return INT;std::size_t n=3+2*pairs;if(cap<n)return CAP;if(!out)return NO;if(!aligned(out,alignof(std::uint64_t)))return INT;std::uint64_t stage[MAX_REPORT]={};stage[0]=1;stage[1]=id;stage[2]=pairs;std::size_t cursor=3;auto append=[&](std::uint64_t k,std::uint64_t v){stage[cursor++]=k;stage[cursor++]=v;};switch(id){"@ + lo.layout_case_arms@ + "default:return UNK;}if(cursor!=n)return INT;std::memcpy(out,stage,n*sizeof(*out));*w=n;return OK;}\n"@ + "extern \"C\" std::uint8_t zs_write_fixture(std::uint32_t id,std::uint8_t*out,std::size_t cap,std::size_t*w)noexcept{using namespace zs_codec;if(!aligned(w,alignof(std::size_t)))return NW;*w=0;std::size_t n=0;switch(id){"@ + sizes + "default:return UNK;}if(cap<n)return CAP;if(!out)return NO;std::uint8_t stage[MAX_BYTES]={};bool ok=false;switch(id){"@ + writers
                + "default:return UNK;}if(!ok)return INT;std::memcpy(out,stage,n);*w=n;return OK;}\n"@ + "extern \"C\" std::uint8_t zs_inspect_fixture(std::uint32_t id,const std::uint8_t*in,std::size_t len,std::uint64_t*out,std::size_t cap,std::size_t*w)noexcept{using namespace zs_codec;if(!aligned(w,alignof(std::size_t)))return NW;*w=0;std::size_t n=0,pairs=0;switch(id){"@ + inspections + "default:return UNK;}if(len!=n)return LEN;if(!in)return NI;if(pairs>(SIZE_MAX-3)/2)return INT;std::size_t req=3+2*pairs;if(cap<req)return CAP;if(!out)return NO;if(!aligned(out,alignof(std::uint64_t)))return INT;std::uint64_t stage[MAX_REPORT]={};bool ok=false;switch(id){"@ + inspectors + "default:return UNK;}if(!ok)return INT;std::memcpy(out,stage,req*sizeof(*out));*w=req;return OK;}\n"@,
        ),
        _ => None,
    }
}

proof fn lemma_dispatch_prefix(md: LayoutMetadata, cases: Seq<Case>, which: nat, k: int, n: int)
    requires
        0 <= k <= n <= cases.len(),
        dispatch_text(md, cases, which, n) is Some,
    ensures
        dispatch_text(md, cases, which, k) is Some,
    decreases n - k,
{
    if k < n {
        lemma_dispatch_prefix(md, cases, which, k, n - 1);
    }
}

/// Appends the dispatch line of kind `which` for case `c`.
#[verifier::spinoff_prover]
fn dispatch_one(out: &mut String, md: &LayoutMetadata, c: &Case, which: u8)
    requires
        which <= 4,
        dispatch_line(*md, *c, which as nat) is Some,
    ensures
        final(out)@ == old(out)@ + dispatch_line(*md, *c, which as nat)->0,
{
    let name = match &c.root {
        Root::Schema(n) => n,
    };
    let t = md.ty(name.as_str());
    let id = decimal_string(c.id as u64);
    out.append("case ");
    out.append(id.as_str());
    if which == 0 {
        out.append(":pairs=");
        out.append(decimal_string(c.layout.len() as u64).as_str());
        out.append(";break;\n");
    } else if which == 1 {
        out.append(":n=static_cast<std::size_t>(");
        out.append(t.size_expr.as_str());
        out.append(");break;\n");
    } else if which == 2 {
        out.append(":ok=write_");
        out.append(id.as_str());
        out.append("(stage,n);break;\n");
    } else if which == 3 {
        out.append(":n=static_cast<std::size_t>(");
        out.append(t.size_expr.as_str());
        out.append(");pairs=");
        out.append(decimal_string(c.observe.len() as u64).as_str());
        out.append(";break;\n");
    } else {
        out.append(":ok=inspect_");
        out.append(id.as_str());
        out.append("(in,len,stage);break;\n");
    }
}

/// Appends the dispatch lines of kind `which` for every case.
#[verifier::spinoff_prover]
fn dispatch(out: &mut String, m: &Model, md: &LayoutMetadata, which: u8)
    requires
        which <= 4,
        dispatch_text(*md, m.cases@, which as nat, m.cases@.len() as int) is Some,
    ensures
        final(out)@ == old(out)@ + dispatch_text(*md, m.cases@, which as nat, m.cases@.len() as int)->0,
{
    let ghost start = out@;
    let mut k: usize = 0;
    while k < m.cases.len()
        invariant
            k <= m.cases@.len(),
            which <= 4,
            dispatch_text(*md, m.cases@, which as nat, m.cases@.len() as int) is Some,
            dispatch_text(*md, m.cases@, which as nat, k as int) is Some,
            out@ == start + dispatch_text(*md, m.cases@, which as nat, k as int)->0,
        decreases m.cases@.len() - k,
    {
        proof {
            lemma_dispatch_prefix(*md, m.cases@, which as nat, k + 1, m.cases@.len() as int);
        }
        dispatch_one(out, md, &m.cases[k], which);
        k += 1;
    }
}

/// Appends the three foreign entry points of the generated C++ codec.
#[verifier::spinoff_prover]
pub fn emit_abi(m: &Model, layout: &LayoutOutput, out: &mut String)
    requires
        abi_text(*m, *layout) is Some,
    ensures
        final(out)@ == old(out)@ + abi_text(*m, *layout)->0,
{
    out.append("extern \"C\" std::uint8_t zs_layout_report(std::uint32_t id,std::uint64_t*out,std::size_t cap,std::size_t*w)noexcept{using namespace zs_codec;if(!aligned(w,alignof(std::size_t)))return NW;*w=0;std::size_t pairs=0;switch(id){");
    dispatch(out, m, &layout.metadata, 0);
    out.append("default:return UNK;}if(pairs>(SIZE_MAX-3)/2)return INT;std::size_t n=3+2*pairs;if(cap<n)return CAP;if(!out)return NO;if(!aligned(out,alignof(std::uint64_t)))return INT;std::uint64_t stage[MAX_REPORT]={};stage[0]=1;stage[1]=id;stage[2]=pairs;std::size_t cursor=3;auto append=[&](std::uint64_t k,std::uint64_t v){stage[cursor++]=k;stage[cursor++]=v;};switch(id){");
    out.append(layout.layout_case_arms.as_str());
    out.append("default:return UNK;}if(cursor!=n)return INT;std::memcpy(out,stage,n*sizeof(*out));*w=n;return OK;}\n");
    out.append("extern \"C\" std::uint8_t zs_write_fixture(std::uint32_t id,std::uint8_t*out,std::size_t cap,std::size_t*w)noexcept{using namespace zs_codec;if(!aligned(w,alignof(std::size_t)))return NW;*w=0;std::size_t n=0;switch(id){");
    dispatch(out, m, &layout.metadata, 1);
    out.append("default:return UNK;}if(cap<n)return CAP;if(!out)return NO;std::uint8_t stage[MAX_BYTES]={};bool ok=false;switch(id){");
    dispatch(out, m, &layout.metadata, 2);
    out.append("default:return UNK;}if(!ok)return INT;std::memcpy(out,stage,n);*w=n;return OK;}\n");
    out.append("extern \"C\" std::uint8_t zs_inspect_fixture(std::uint32_t id,const std::uint8_t*in,std::size_t len,std::uint64_t*out,std::size_t cap,std::size_t*w)noexcept{using namespace zs_codec;if(!aligned(w,alignof(std::size_t)))return NW;*w=0;std::size_t n=0,pairs=0;switch(id){");
    dispatch(out, m, &layout.metadata, 3);
    out.append("default:return UNK;}if(len!=n)return LEN;if(!in)return NI;if(pairs>(SIZE_MAX-3)/2)return INT;std::size_t req=3+2*pairs;if(cap<req)return CAP;if(!out)return NO;if(!aligned(out,alignof(std::uint64_t)))return INT;std::uint64_t stage[MAX_REPORT]={};bool ok=false;switch(id){");
    dispatch(out, m, &layout.metadata, 4);
    out.append("default:return UNK;}if(!ok)return INT;std::memcpy(out,stage,req*sizeof(*out));*w=req;return OK;}\n");
}

} // verus!

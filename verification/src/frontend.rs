//! The rules a conformance schema model must follow before C++ is generated
//! from it: registrations, references, the wiring of externally tagged
//! payloads, acyclicity, optional eligibility, case identities, report keys
//! and reachability of every schema from a case root.

use vstd::prelude::*;

use crate::conformance::{
    field_named, field_position, find_first, lemma_first_match_absent, lemma_first_match_found,
    opt_view, same_text, schema_index, schema_named, Case, Field, MetricEntry, Model,
    ObservationEntry, Root, RootRegistration, Schema, SchemaKind, TaggedVariant, Type,
};

verus! {

/// The rule a refused model breaks.
#[derive(Clone, Copy, Debug, PartialEq, Eq, Structural)]
pub enum ModelError {
    RootCount,
    DuplicateRegistration,
    UnknownSchema,
    TaggedPayloadWithoutTagField,
    DuplicateTagField,
    TagFieldNotOnPayload,
    TagFieldNeedsTaggedPayload,
    MissingTagSibling,
    TagSiblingNotSchema,
    TagSiblingMismatch,
    TagNotScalarEnum,
    UnknownVariantPayload,
    Cycle,
    OptionNotZeroInvalid,
    CaseId,
    NativeMarker,
    RegistryMismatch,
    UnknownRoot,
    TaggedRoot,
    KeysNotAscending,
    KeyNotUnique,
    KeyNamespace,
    UnusedSchema,
}

/// The number of registered roots and of cases.
pub const CASE_COUNT: usize = 15;

/// The identities of the conformance cases.
pub open spec fn frozen_case_id(id: u32) -> bool {
    1001 <= id <= 1016 && id != 1009
}

/// The cases whose values use native byte order.
pub open spec fn native_case_id(id: u32) -> bool {
    1012 <= id <= 1016
}

/// Schema `i` is the last one named `n`; a later declaration of a name
/// replaces an earlier one.
pub open spec fn last_named(s: Seq<Schema>, n: Seq<char>, i: int) -> bool {
    &&& 0 <= i < s.len()
    &&& s[i].name@ == n
    &&& forall|j: int| i < j < s.len() ==> #[trigger] s[j].name@ != n
}

/// The schema a name stands for: the last one declared with it.
pub open spec fn lookup(s: Seq<Schema>, n: Seq<char>) -> Option<Schema> {
    if exists|i: int| last_named(s, n, i) {
        Some(s[choose|i: int| last_named(s, n, i)])
    } else {
        None
    }
}

/// Schema `i` is the one its name stands for.
pub open spec fn effective(s: Seq<Schema>, i: int) -> bool {
    last_named(s, s[i].name@, i)
}

proof fn lemma_last_named_found(s: Seq<Schema>, n: Seq<char>, i: int)
    requires
        last_named(s, n, i),
    ensures
        lookup(s, n) == Some(s[i]),
{
    let k = choose|k: int| last_named(s, n, k);
    assert(last_named(s, n, k));
    if k < i {
        assert(s[i].name@ != n);
    } else if i < k {
        assert(s[k].name@ != n);
    }
}

/// The schema a type refers to, through arrays and options.
pub open spec fn type_ref(t: Type) -> Option<Seq<char>>
    decreases t,
{
    match t {
        Type::Schema(n) => Some(n@),
        Type::Array { element, .. } => type_ref(*element),
        Type::Option(inner) => type_ref(*inner),
        _ => None,
    }
}

/// The fields of a record schema; no fields for the other kinds.
pub open spec fn fields_of(x: Schema) -> Seq<Field> {
    match x.kind {
        SchemaKind::Struct { fields } => fields@,
        _ => Seq::empty(),
    }
}

/// The variants of a tagged payload schema; none for the other kinds.
pub open spec fn payloads_of(x: Schema) -> Seq<TaggedVariant> {
    match x.kind {
        SchemaKind::TaggedEnum { variants, .. } => variants@,
        _ => Seq::empty(),
    }
}

/// The schema that the `k`th field or variant of `x` refers to.
pub open spec fn child_at(x: Schema, k: int) -> Option<Seq<char>> {
    match x.kind {
        SchemaKind::Struct { fields } => if 0 <= k < fields@.len() {
            type_ref(fields@[k].ty)
        } else {
            None
        },
        SchemaKind::TaggedEnum { variants, .. } => if 0 <= k < variants@.len() {
            opt_view(variants@[k].payload)
        } else {
            None
        },
        SchemaKind::ScalarEnum { .. } => None,
    }
}

/// Schema `i` refers to schema `j` by name.
pub open spec fn refers(s: Seq<Schema>, i: int, j: int) -> bool {
    exists|k: int| #[trigger] child_at(s[i], k) == Some(s[j].name@)
}

/// A reference between the schemas that names stand for.
pub open spec fn edge(s: Seq<Schema>, i: int, j: int) -> bool {
    effective(s, i) && effective(s, j) && refers(s, i, j)
}

/// A reference from the schema a name stands for to any schema of the
/// referred name.
pub open spec fn leads(s: Seq<Schema>, i: int, j: int) -> bool {
    effective(s, i) && refers(s, i, j)
}

/// `rank` decreases along every reference.
pub open spec fn ranked(s: Seq<Schema>, rank: Seq<nat>) -> bool {
    &&& rank.len() == s.len()
    &&& forall|i: int, j: int|
        0 <= i < s.len() && 0 <= j < s.len() && #[trigger] edge(s, i, j) ==> rank[i] > rank[j]
}

/// No schema reaches itself through references.
pub open spec fn acyclic(s: Seq<Schema>) -> bool {
    exists|rank: Seq<nat>| ranked(s, rank)
}

/// Whether every all-zero value of `t` is invalid, following schema
/// references at most `fuel` deep.
pub open spec fn zero_invalid(s: Seq<Schema>, t: Type, fuel: nat) -> bool
    decreases fuel, t,
{
    match t {
        Type::Schema(n) => if fuel == 0 {
            false
        } else {
            match lookup(s, n@) {
                Some(x) => match x.kind {
                    SchemaKind::ScalarEnum { variants, .. } => variants@.len() > 0 && forall|v: int|
                        0 <= v < variants@.len() ==> variants@[v].raw != 0,
                    SchemaKind::Struct { fields } => exists|k: int|
                        0 <= k < fields@.len() && zero_invalid(s, fields@[k].ty, (fuel - 1) as nat),
                    SchemaKind::TaggedEnum { .. } => false,
                },
                None => false,
            }
        },
        Type::Array { element, length } => length != 0 && zero_invalid(s, *element, fuel),
        _ => false,
    }
}

/// Whether an optional field may hold `t`, using the all-zero value as absence.
/// References are followed as deep as there are schemas, which reaches every
/// schema of an acyclic model.
pub open spec fn option_eligible(s: Seq<Schema>, t: Type) -> bool {
    match t {
        Type::Schema(_) => zero_invalid(s, t, s.len()),
        Type::Array { element, length } => length != 0 && (*element is Schema) && zero_invalid(
            s,
            *element,
            s.len(),
        ),
        _ => false,
    }
}

/// The rule of `e` for the `k`th field of a record with `fields`.
pub open spec fn field_rule(e: ModelError, s: Seq<Schema>, fields: Seq<Field>, k: int) -> bool {
    let f = fields[k];
    match e {
        ModelError::UnknownSchema => type_ref(f.ty) matches Some(n) ==> lookup(s, n) is Some,
        ModelError::TaggedPayloadWithoutTagField => (f.tag_field is None && f.ty is Schema) ==> !(
        lookup(s, f.ty->Schema_0@) matches Some(x) && x.kind is TaggedEnum),
        ModelError::DuplicateTagField => f.tag_field matches Some(t) ==> forall|a: int|
            0 <= a < k ==> !(#[trigger] fields[a].tag_field matches Some(u) && u@ == t@),
        ModelError::TagFieldNotOnPayload => f.tag_field is Some ==> f.ty is Schema,
        ModelError::TagFieldNeedsTaggedPayload => (f.tag_field is Some && f.ty is Schema) ==> (lookup(
            s,
            f.ty->Schema_0@,
        ) matches Some(x) && x.kind is TaggedEnum),
        ModelError::MissingTagSibling => f.tag_field matches Some(t) ==> find_first(
            fields,
            field_named(t@),
        ) is Some,
        ModelError::TagSiblingNotSchema => f.tag_field is Some ==> (find_first(
            fields,
            field_named(f.tag_field->0@),
        ) matches Some(g) ==> g.ty is Schema),
        ModelError::TagSiblingMismatch => sibling_matches(s, fields, f),
        _ => true,
    }
}

/// The sibling named by the tag field of `f` is the scalar enum that tags
/// its payload.
pub open spec fn sibling_matches(s: Seq<Schema>, fields: Seq<Field>, f: Field) -> bool {
    let tagged = lookup(s, f.ty->Schema_0@);
    let sibling = find_first(fields, field_named(f.tag_field->0@));
    (f.tag_field is Some && f.ty is Schema && tagged is Some && tagged->0.kind is TaggedEnum
        && sibling is Some && sibling->0.ty is Schema) ==> ({
        let name = sibling->0.ty->Schema_0@;
        &&& name == tagged->0.kind->TaggedEnum_tag@
        &&& lookup(s, name) matches Some(y) && y.kind is ScalarEnum
    })
}

/// Every rule on single record fields holds for field `k`.
pub open spec fn field_rules(s: Seq<Schema>, fields: Seq<Field>, k: int) -> bool {
    &&& field_rule(ModelError::UnknownSchema, s, fields, k)
    &&& field_rule(ModelError::TaggedPayloadWithoutTagField, s, fields, k)
    &&& field_rule(ModelError::DuplicateTagField, s, fields, k)
    &&& field_rule(ModelError::TagFieldNotOnPayload, s, fields, k)
    &&& field_rule(ModelError::TagFieldNeedsTaggedPayload, s, fields, k)
    &&& field_rule(ModelError::MissingTagSibling, s, fields, k)
    &&& field_rule(ModelError::TagSiblingNotSchema, s, fields, k)
    &&& field_rule(ModelError::TagSiblingMismatch, s, fields, k)
}

pub open spec fn root_name(c: Case) -> Seq<char> {
    match c.root {
        Root::Schema(n) => n@,
    }
}

pub open spec fn layout_keys(c: Case) -> Seq<u64> {
    c.layout@.map_values(|e: MetricEntry| e.key)
}

pub open spec fn observe_keys(c: Case) -> Seq<u64> {
    c.observe@.map_values(|e: ObservationEntry| e.key)
}

/// Nonempty and strictly ascending.
pub open spec fn ascending(k: Seq<u64>) -> bool {
    &&& k.len() > 0
    &&& forall|a: int, b: int| 0 <= a < b < k.len() ==> k[a] < k[b]
}

/// The report keys of the first `c` cases, each case's layout keys before
/// its observation keys.
pub open spec fn keys_upto(cases: Seq<Case>, c: int) -> Seq<u64>
    decreases c,
{
    if c <= 0 {
        Seq::empty()
    } else {
        keys_upto(cases, c - 1) + layout_keys(cases[c - 1]) + observe_keys(cases[c - 1])
    }
}

/// Nonzero and pairwise distinct.
pub open spec fn keys_unique(k: Seq<u64>) -> bool {
    &&& forall|a: int| 0 <= a < k.len() ==> k[a] != 0
    &&& forall|a: int, b: int| 0 <= a < b < k.len() ==> k[a] != k[b]
}

/// A case's layout keys lie in the first half of its thousand, its
/// observation keys in the second.
pub open spec fn in_namespace(c: Case) -> bool {
    let base = c.id * 1000;
    &&& forall|a: int|
        0 <= a < layout_keys(c).len() ==> base + 1 <= #[trigger] layout_keys(c)[a] <= base + 499
    &&& forall|a: int|
        0 <= a < observe_keys(c).len() ==> base + 501 <= #[trigger] observe_keys(c)[a] <= base + 999
}

/// Some registration pairs the case's identity with its root identity.
pub open spec fn registered(roots: Seq<RootRegistration>, c: Case) -> bool {
    exists|r: int|
        0 <= r < roots.len() && #[trigger] roots[r].case_id == c.id && roots[r].root_id@ == c.root_id@
}

/// Schema `j` is reached from a case root in at most `k` references.
pub open spec fn reached(s: Seq<Schema>, cases: Seq<Case>, k: nat, j: int) -> bool
    decreases k,
{
    if k == 0 {
        exists|c: int| 0 <= c < cases.len() && #[trigger] root_name(cases[c]) == s[j].name@
    } else {
        reached(s, cases, (k - 1) as nat, j) || exists|i: int|
            0 <= i < s.len() && reached(s, cases, (k - 1) as nat, i) && #[trigger] leads(s, i, j)
    }
}

/// What rule `e` demands of a model.
pub open spec fn holds(
    e: ModelError,
    s: Seq<Schema>,
    roots: Seq<RootRegistration>,
    cases: Seq<Case>,
) -> bool {
    match e {
        ModelError::RootCount => cases.len() == CASE_COUNT && roots.len() == CASE_COUNT,
        ModelError::DuplicateRegistration => forall|a: int, b: int|
            0 <= a < b < roots.len() ==> #[trigger] roots[a].case_id != #[trigger] roots[b].case_id,
        ModelError::TagNotScalarEnum => forall|i: int|
            0 <= i < s.len() ==> (#[trigger] s[i].kind matches SchemaKind::TaggedEnum { tag, .. }
                ==> (lookup(s, tag@) matches Some(y) && y.kind is ScalarEnum)),
        ModelError::UnknownVariantPayload => forall|i: int, k: int|
            0 <= i < s.len() && 0 <= k < payloads_of(s[i]).len() ==> (opt_view(
                #[trigger] payloads_of(s[i])[k].payload,
            ) matches Some(n) ==> lookup(s, n) is Some),
        ModelError::Cycle => acyclic(s),
        ModelError::OptionNotZeroInvalid => forall|i: int, k: int|
            0 <= i < s.len() && 0 <= k < fields_of(s[i]).len() ==> (#[trigger] fields_of(
                s[i],
            )[k].ty matches Type::Option(inner) ==> option_eligible(s, *inner)),
        ModelError::CaseId => {
            &&& forall|c: int| 0 <= c < cases.len() ==> frozen_case_id(#[trigger] cases[c].id)
            &&& forall|a: int, b: int|
                0 <= a < b < cases.len() ==> #[trigger] cases[a].id != #[trigger] cases[b].id
        },
        ModelError::NativeMarker => forall|c: int|
            0 <= c < cases.len() ==> #[trigger] cases[c].native == native_case_id(cases[c].id),
        ModelError::RegistryMismatch => forall|c: int|
            0 <= c < cases.len() ==> registered(roots, #[trigger] cases[c]),
        ModelError::UnknownRoot => forall|c: int|
            0 <= c < cases.len() ==> lookup(s, root_name(#[trigger] cases[c])) is Some,
        ModelError::TaggedRoot => forall|c: int|
            0 <= c < cases.len() ==> !(lookup(s, root_name(#[trigger] cases[c])) matches Some(x)
                && x.kind is TaggedEnum),
        ModelError::KeysNotAscending => forall|c: int|
            0 <= c < cases.len() ==> ascending(layout_keys(#[trigger] cases[c])) && ascending(
                observe_keys(cases[c]),
            ),
        ModelError::KeyNotUnique => keys_unique(keys_upto(cases, cases.len() as int)),
        ModelError::KeyNamespace => forall|c: int|
            0 <= c < cases.len() ==> in_namespace(#[trigger] cases[c]),
        ModelError::UnusedSchema => forall|j: int|
            0 <= j < s.len() ==> #[trigger] reached(s, cases, s.len(), j),
        _ => forall|i: int, k: int|
            0 <= i < s.len() && 0 <= k < fields_of(s[i]).len() ==> #[trigger] field_rule(
                e,
                s,
                fields_of(s[i]),
                k,
            ),
    }
}

/// Every rule holds of the model.
pub open spec fn model_valid(s: Seq<Schema>, roots: Seq<RootRegistration>, cases: Seq<Case>) -> bool {
    &&& holds(ModelError::RootCount, s, roots, cases)
    &&& holds(ModelError::DuplicateRegistration, s, roots, cases)
    &&& holds(ModelError::UnknownSchema, s, roots, cases)
    &&& holds(ModelError::TaggedPayloadWithoutTagField, s, roots, cases)
    &&& holds(ModelError::DuplicateTagField, s, roots, cases)
    &&& holds(ModelError::TagFieldNotOnPayload, s, roots, cases)
    &&& holds(ModelError::TagFieldNeedsTaggedPayload, s, roots, cases)
    &&& holds(ModelError::MissingTagSibling, s, roots, cases)
    &&& holds(ModelError::TagSiblingNotSchema, s, roots, cases)
    &&& holds(ModelError::TagSiblingMismatch, s, roots, cases)
    &&& holds(ModelError::TagNotScalarEnum, s, roots, cases)
    &&& holds(ModelError::UnknownVariantPayload, s, roots, cases)
    &&& holds(ModelError::Cycle, s, roots, cases)
    &&& holds(ModelError::OptionNotZeroInvalid, s, roots, cases)
    &&& holds(ModelError::CaseId, s, roots, cases)
    &&& holds(ModelError::NativeMarker, s, roots, cases)
    &&& holds(ModelError::RegistryMismatch, s, roots, cases)
    &&& holds(ModelError::UnknownRoot, s, roots, cases)
    &&& holds(ModelError::TaggedRoot, s, roots, cases)
    &&& holds(ModelError::KeysNotAscending, s, roots, cases)
    &&& holds(ModelError::KeyNotUnique, s, roots, cases)
    &&& holds(ModelError::KeyNamespace, s, roots, cases)
    &&& holds(ModelError::UnusedSchema, s, roots, cases)
}

/// The first rule that field `k` of a record breaks, in the order the
/// field is checked: its schema references, the tag field's presence, its
/// uniqueness, the payload it sits on, the payload's kind, the sibling's
/// presence, kind and match.
pub open spec fn field_error(s: Seq<Schema>, fields: Seq<Field>, k: int) -> Option<ModelError> {
    if !field_rule(ModelError::UnknownSchema, s, fields, k) {
        Some(ModelError::UnknownSchema)
    } else if !field_rule(ModelError::TaggedPayloadWithoutTagField, s, fields, k) {
        Some(ModelError::TaggedPayloadWithoutTagField)
    } else if !field_rule(ModelError::DuplicateTagField, s, fields, k) {
        Some(ModelError::DuplicateTagField)
    } else if !field_rule(ModelError::TagFieldNotOnPayload, s, fields, k) {
        Some(ModelError::TagFieldNotOnPayload)
    } else if !field_rule(ModelError::TagFieldNeedsTaggedPayload, s, fields, k) {
        Some(ModelError::TagFieldNeedsTaggedPayload)
    } else if !field_rule(ModelError::MissingTagSibling, s, fields, k) {
        Some(ModelError::MissingTagSibling)
    } else if !field_rule(ModelError::TagSiblingNotSchema, s, fields, k) {
        Some(ModelError::TagSiblingNotSchema)
    } else if !field_rule(ModelError::TagSiblingMismatch, s, fields, k) {
        Some(ModelError::TagSiblingMismatch)
    } else {
        None
    }
}

/// The first rule broken by the first `k` fields of a record, field by field.
pub open spec fn record_error(s: Seq<Schema>, fields: Seq<Field>, k: int) -> Option<ModelError>
    decreases k,
{
    if k <= 0 {
        None
    } else {
        match record_error(s, fields, k - 1) {
            Some(e) => Some(e),
            None => field_error(s, fields, k - 1),
        }
    }
}

/// The tag of a tagged payload names a scalar enum.
pub open spec fn tag_ok(s: Seq<Schema>, tag: Seq<char>) -> bool {
    lookup(s, tag) matches Some(y) && y.kind is ScalarEnum
}

/// Every named variant payload is a declared schema.
pub open spec fn payloads_known(s: Seq<Schema>, vs: Seq<TaggedVariant>) -> bool {
    forall|k: int|
        0 <= k < vs.len() ==> (opt_view(#[trigger] vs[k].payload) matches Some(n) ==> lookup(s, n) is Some)
}

/// The first rule a schema declaration breaks: a record's fields in order, a
/// tagged payload's tag before its variants.
pub open spec fn schema_error(s: Seq<Schema>, x: Schema) -> Option<ModelError> {
    match x.kind {
        SchemaKind::Struct { fields } => record_error(s, fields@, fields@.len() as int),
        SchemaKind::TaggedEnum { tag, variants } => if !tag_ok(s, tag@) {
            Some(ModelError::TagNotScalarEnum)
        } else if !payloads_known(s, variants@) {
            Some(ModelError::UnknownVariantPayload)
        } else {
            None
        },
        SchemaKind::ScalarEnum { .. } => None,
    }
}

/// The first rule broken by the first `i` schema declarations, schema by schema.
pub open spec fn schemas_error(s: Seq<Schema>, i: int) -> Option<ModelError>
    decreases i,
{
    if i <= 0 {
        None
    } else {
        match schemas_error(s, i - 1) {
            Some(e) => Some(e),
            None => schema_error(s, s[i - 1]),
        }
    }
}

/// Keys that are nonzero and absent from `prev`.
pub open spec fn fresh(k: Seq<u64>, prev: Seq<u64>) -> bool {
    forall|a: int| 0 <= a < k.len() ==> #[trigger] k[a] != 0 && !prev.contains(k[a])
}

/// The first rule case `c` breaks, given the cases before it, in the order
/// the case is checked: its identity, native marker, registration, root,
/// layout keys, observation keys and key namespace.
pub open spec fn case_error(
    s: Seq<Schema>,
    roots: Seq<RootRegistration>,
    cases: Seq<Case>,
    c: int,
) -> Option<ModelError> {
    let x = cases[c];
    let prev = keys_upto(cases, c);
    if !frozen_case_id(x.id) || exists|a: int| 0 <= a < c && #[trigger] cases[a].id == x.id {
        Some(ModelError::CaseId)
    } else if x.native != native_case_id(x.id) {
        Some(ModelError::NativeMarker)
    } else if !registered(roots, x) {
        Some(ModelError::RegistryMismatch)
    } else if lookup(s, root_name(x)) is None {
        Some(ModelError::UnknownRoot)
    } else if lookup(s, root_name(x))->0.kind is TaggedEnum {
        Some(ModelError::TaggedRoot)
    } else if !ascending(layout_keys(x)) {
        Some(ModelError::KeysNotAscending)
    } else if !fresh(layout_keys(x), prev) {
        Some(ModelError::KeyNotUnique)
    } else if !ascending(observe_keys(x)) {
        Some(ModelError::KeysNotAscending)
    } else if !fresh(observe_keys(x), prev + layout_keys(x)) {
        Some(ModelError::KeyNotUnique)
    } else if !in_namespace(x) {
        Some(ModelError::KeyNamespace)
    } else {
        None
    }
}

/// The first rule broken by the first `c` cases, case by case.
pub open spec fn cases_error(
    s: Seq<Schema>,
    roots: Seq<RootRegistration>,
    cases: Seq<Case>,
    c: int,
) -> Option<ModelError>
    decreases c,
{
    if c <= 0 {
        None
    } else {
        match cases_error(s, roots, cases, c - 1) {
            Some(e) => Some(e),
            None => case_error(s, roots, cases, c - 1),
        }
    }
}

/// The rule a refusal names: the first broken one when the rules are taken
/// in this order: the counts, the registrations, the schema declarations one
/// by one, cycles, optional fields, the cases one by one, and last the reach
/// of every schema.
pub open spec fn first_error(s: Seq<Schema>, roots: Seq<RootRegistration>, cases: Seq<Case>) -> Option<
    ModelError,
> {
    if !holds(ModelError::RootCount, s, roots, cases) {
        Some(ModelError::RootCount)
    } else if !holds(ModelError::DuplicateRegistration, s, roots, cases) {
        Some(ModelError::DuplicateRegistration)
    } else if schemas_error(s, s.len() as int) is Some {
        schemas_error(s, s.len() as int)
    } else if !acyclic(s) {
        Some(ModelError::Cycle)
    } else if !holds(ModelError::OptionNotZeroInvalid, s, roots, cases) {
        Some(ModelError::OptionNotZeroInvalid)
    } else if cases_error(s, roots, cases, cases.len() as int) is Some {
        cases_error(s, roots, cases, cases.len() as int)
    } else if !holds(ModelError::UnusedSchema, s, roots, cases) {
        Some(ModelError::UnusedSchema)
    } else {
        None
    }
}

proof fn lemma_record_error_stays(s: Seq<Schema>, fields: Seq<Field>, k: int, n: int)
    requires
        0 < k <= n,
        record_error(s, fields, k) is Some,
    ensures
        record_error(s, fields, n) == record_error(s, fields, k),
    decreases n - k,
{
    if k < n {
        lemma_record_error_stays(s, fields, k, n - 1);
    }
}

proof fn lemma_schemas_error_stays(s: Seq<Schema>, i: int, n: int)
    requires
        0 < i <= n,
        schemas_error(s, i) is Some,
    ensures
        schemas_error(s, n) == schemas_error(s, i),
    decreases n - i,
{
    if i < n {
        lemma_schemas_error_stays(s, i, n - 1);
    }
}

proof fn lemma_cases_error_stays(
    s: Seq<Schema>,
    roots: Seq<RootRegistration>,
    cases: Seq<Case>,
    c: int,
    n: int,
)
    requires
        0 < c <= n,
        cases_error(s, roots, cases, c) is Some,
    ensures
        cases_error(s, roots, cases, n) == cases_error(s, roots, cases, c),
    decreases n - c,
{
    if c < n {
        lemma_cases_error_stays(s, roots, cases, c, n - 1);
    }
}

proof fn lemma_record_none(s: Seq<Schema>, fields: Seq<Field>, n: int)
    requires
        record_error(s, fields, n) is None,
    ensures
        forall|k: int| 0 <= k < n ==> #[trigger] field_error(s, fields, k) is None,
    decreases n,
{
    if n > 0 {
        lemma_record_none(s, fields, n - 1);
    }
}

proof fn lemma_schemas_none(s: Seq<Schema>, n: int)
    requires
        schemas_error(s, n) is None,
    ensures
        forall|i: int| 0 <= i < n ==> #[trigger] schema_error(s, s[i]) is None,
    decreases n,
{
    if n > 0 {
        lemma_schemas_none(s, n - 1);
    }
}

proof fn lemma_cases_none(s: Seq<Schema>, roots: Seq<RootRegistration>, cases: Seq<Case>, n: int)
    requires
        cases_error(s, roots, cases, n) is None,
    ensures
        forall|c: int| 0 <= c < n ==> #[trigger] case_error(s, roots, cases, c) is None,
    decreases n,
{
    if n > 0 {
        lemma_cases_none(s, roots, cases, n - 1);
    }
}

proof fn lemma_unique_append(prev: Seq<u64>, k: Seq<u64>)
    requires
        keys_unique(prev),
        ascending(k),
        fresh(k, prev),
    ensures
        keys_unique(prev + k),
{
    let t = prev + k;
    let n = prev.len() as int;
    assert forall|a: int| 0 <= a < t.len() implies t[a] != 0 by {
        if a >= n {
            assert(t[a] == k[a - n]);
        }
    }
    assert forall|a: int, b: int| 0 <= a < b < t.len() implies t[a] != t[b] by {
        if b < n {
        } else if a < n {
            assert(t[b] == k[b - n]);
            assert(!prev.contains(k[b - n]));
            assert(t[a] == prev[a]);
        } else {
            assert(t[a] == k[a - n]);
            assert(t[b] == k[b - n]);
        }
    }
}

proof fn lemma_keys_unique_upto(s: Seq<Schema>, roots: Seq<RootRegistration>, cases: Seq<Case>, c: int)
    requires
        0 <= c <= cases.len(),
        forall|x: int| 0 <= x < c ==> #[trigger] case_error(s, roots, cases, x) is None,
    ensures
        keys_unique(keys_upto(cases, c)),
    decreases c,
{
    if c > 0 {
        lemma_keys_unique_upto(s, roots, cases, c - 1);
        let prev = keys_upto(cases, c - 1);
        let x = cases[c - 1];
        assert(case_error(s, roots, cases, c - 1) is None);
        lemma_unique_append(prev, layout_keys(x));
        lemma_unique_append(prev + layout_keys(x), observe_keys(x));
    }
}

proof fn lemma_record_ok(s: Seq<Schema>, fields: Seq<Field>, n: int)
    requires
        forall|k: int| 0 <= k < n ==> #[trigger] field_rules(s, fields, k),
    ensures
        record_error(s, fields, n) is None,
    decreases n,
{
    if n > 0 {
        lemma_record_ok(s, fields, n - 1);
        assert(field_rules(s, fields, n - 1));
    }
}

proof fn lemma_schemas_ok(s: Seq<Schema>, n: int)
    requires
        n <= s.len(),
        forall|i: int| 0 <= i < n ==> #[trigger] schema_error(s, s[i]) is None,
    ensures
        schemas_error(s, n) is None,
    decreases n,
{
    if n > 0 {
        lemma_schemas_ok(s, n - 1);
        assert(schema_error(s, s[n - 1]) is None);
    }
}

proof fn lemma_cases_ok(s: Seq<Schema>, roots: Seq<RootRegistration>, cases: Seq<Case>, n: int)
    requires
        n <= cases.len(),
        forall|c: int| 0 <= c < n ==> #[trigger] case_error(s, roots, cases, c) is None,
    ensures
        cases_error(s, roots, cases, n) is None,
    decreases n,
{
    if n > 0 {
        lemma_cases_ok(s, roots, cases, n - 1);
        assert(case_error(s, roots, cases, n - 1) is None);
    }
}

proof fn lemma_keys_prefix(cases: Seq<Case>, c: int, n: int)
    requires
        0 <= c <= n,
    ensures
        keys_upto(cases, c).len() <= keys_upto(cases, n).len(),
        keys_upto(cases, n).subrange(0, keys_upto(cases, c).len() as int) == keys_upto(cases, c),
    decreases n - c,
{
    if c < n {
        lemma_keys_prefix(cases, c, n - 1);
        let a = keys_upto(cases, c);
        let b = keys_upto(cases, n - 1);
        let t = keys_upto(cases, n);
        assert(t.subrange(0, b.len() as int) =~= b);
        assert(t.subrange(0, a.len() as int) =~= b.subrange(0, a.len() as int));
    } else {
        assert(keys_upto(cases, n).subrange(0, keys_upto(cases, n).len() as int) =~= keys_upto(cases, n));
    }
}

proof fn lemma_fresh_from_unique(prev: Seq<u64>, k: Seq<u64>)
    requires
        keys_unique(prev + k),
    ensures
        fresh(k, prev),
        keys_unique(prev),
{
    let t = prev + k;
    let n = prev.len() as int;
    assert forall|a: int| 0 <= a < k.len() implies #[trigger] k[a] != 0 && !prev.contains(k[a]) by {
        assert(t[n + a] == k[a]);
        if prev.contains(k[a]) {
            let i = choose|i: int| 0 <= i < prev.len() && prev[i] == k[a];
            assert(t[i] == t[n + a]);
        }
    }
    assert forall|a: int, b: int| 0 <= a < b < prev.len() implies prev[a] != prev[b] by {
        assert(t[a] == prev[a] && t[b] == prev[b]);
    }
    assert forall|a: int| 0 <= a < prev.len() implies prev[a] != 0 by {
        assert(t[a] == prev[a]);
    }
}

/// The checks find no broken rule in a model that follows every rule.
proof fn lemma_valid_no_error(s: Seq<Schema>, roots: Seq<RootRegistration>, cases: Seq<Case>)
    requires
        model_valid(s, roots, cases),
    ensures
        first_error(s, roots, cases) is None,
{
    assert forall|i: int| 0 <= i < s.len() implies #[trigger] schema_error(s, s[i]) is None by {
        match s[i].kind {
            SchemaKind::Struct { fields } => {
                assert forall|k: int| 0 <= k < fields@.len() implies #[trigger] field_rules(s, fields@, k) by {
                    assert(fields_of(s[i]) == fields@);
                    assert(field_rule(ModelError::UnknownSchema, s, fields_of(s[i]), k));
                    assert(field_rule(ModelError::TaggedPayloadWithoutTagField, s, fields_of(s[i]), k));
                    assert(field_rule(ModelError::DuplicateTagField, s, fields_of(s[i]), k));
                    assert(field_rule(ModelError::TagFieldNotOnPayload, s, fields_of(s[i]), k));
                    assert(field_rule(ModelError::TagFieldNeedsTaggedPayload, s, fields_of(s[i]), k));
                    assert(field_rule(ModelError::MissingTagSibling, s, fields_of(s[i]), k));
                    assert(field_rule(ModelError::TagSiblingNotSchema, s, fields_of(s[i]), k));
                    assert(field_rule(ModelError::TagSiblingMismatch, s, fields_of(s[i]), k));
                }
                lemma_record_ok(s, fields@, fields@.len() as int);
            },
            SchemaKind::TaggedEnum { tag, variants } => {
                assert(payloads_of(s[i]) == variants@);
                assert forall|k: int| 0 <= k < variants@.len() implies (opt_view(
                    #[trigger] variants@[k].payload,
                ) matches Some(n) ==> lookup(s, n) is Some) by {
                    assert(payloads_of(s[i])[k] == variants@[k]);
                }
            },
            SchemaKind::ScalarEnum { .. } => {},
        }
    }
    lemma_schemas_ok(s, s.len() as int);
    let n = cases.len() as int;
    assert forall|c: int| 0 <= c < n implies #[trigger] case_error(s, roots, cases, c) is None by {
        let x = cases[c];
        let prev = keys_upto(cases, c);
        assert(frozen_case_id(x.id));
        assert(!exists|a: int| 0 <= a < c && #[trigger] cases[a].id == x.id);
        assert(registered(roots, x));
        assert(ascending(layout_keys(x)) && ascending(observe_keys(x)));
        assert(in_namespace(x));
        lemma_keys_prefix(cases, c + 1, n);
        let t = keys_upto(cases, c + 1);
        assert(keys_unique(t)) by {
            let all = keys_upto(cases, n);
            assert(keys_unique(all));
            assert forall|a: int, b: int| 0 <= a < b < t.len() implies t[a] != t[b] by {
                assert(t[a] == all[a] && t[b] == all[b]);
            }
            assert forall|a: int| 0 <= a < t.len() implies t[a] != 0 by {
                assert(t[a] == all[a]);
            }
        }
        assert(t == prev + layout_keys(x) + observe_keys(x));
        lemma_fresh_from_unique(prev + layout_keys(x), observe_keys(x));
        lemma_fresh_from_unique(prev, layout_keys(x));
    }
    lemma_cases_ok(s, roots, cases, n);
}

/// Every rule holds of a model in which the checks find no broken rule.
proof fn lemma_no_error_valid(s: Seq<Schema>, roots: Seq<RootRegistration>, cases: Seq<Case>)
    requires
        first_error(s, roots, cases) is None,
    ensures
        model_valid(s, roots, cases),
{
    lemma_schemas_none(s, s.len() as int);
    lemma_cases_none(s, roots, cases, cases.len() as int);
    assert forall|i: int, k: int|
        0 <= i < s.len() && 0 <= k < fields_of(s[i]).len() implies #[trigger] field_rules(
        s,
        fields_of(s[i]),
        k,
    ) by {
        assert(schema_error(s, s[i]) is None);
        if let SchemaKind::Struct { fields } = s[i].kind {
            lemma_record_none(s, fields@, fields@.len() as int);
            assert(field_error(s, fields@, k) is None);
        }
    }
    assert(all_field_rules(s));
    lemma_field_rule_holds(ModelError::UnknownSchema, s, roots, cases);
    lemma_field_rule_holds(ModelError::TaggedPayloadWithoutTagField, s, roots, cases);
    lemma_field_rule_holds(ModelError::DuplicateTagField, s, roots, cases);
    lemma_field_rule_holds(ModelError::TagFieldNotOnPayload, s, roots, cases);
    lemma_field_rule_holds(ModelError::TagFieldNeedsTaggedPayload, s, roots, cases);
    lemma_field_rule_holds(ModelError::MissingTagSibling, s, roots, cases);
    lemma_field_rule_holds(ModelError::TagSiblingNotSchema, s, roots, cases);
    lemma_field_rule_holds(ModelError::TagSiblingMismatch, s, roots, cases);
    assert forall|i: int| 0 <= i < s.len() implies (#[trigger] s[i].kind matches SchemaKind::TaggedEnum {
        tag,
        ..
    } ==> (lookup(s, tag@) matches Some(y) && y.kind is ScalarEnum)) by {
        assert(schema_error(s, s[i]) is None);
    }
    assert(holds(ModelError::TagNotScalarEnum, s, roots, cases));
    assert forall|i: int, k: int| 0 <= i < s.len() && 0 <= k < payloads_of(s[i]).len() implies (opt_view(
        #[trigger] payloads_of(s[i])[k].payload,
    ) matches Some(n) ==> lookup(s, n) is Some) by {
        assert(schema_error(s, s[i]) is None);
    }
    assert(holds(ModelError::UnknownVariantPayload, s, roots, cases));
    assert forall|c: int| 0 <= c < cases.len() implies {
        &&& frozen_case_id(#[trigger] cases[c].id)
        &&& cases[c].native == native_case_id(cases[c].id)
        &&& registered(roots, cases[c])
        &&& lookup(s, root_name(cases[c])) is Some
        &&& !(lookup(s, root_name(cases[c])) matches Some(x) && x.kind is TaggedEnum)
        &&& ascending(layout_keys(cases[c]))
        &&& ascending(observe_keys(cases[c]))
        &&& in_namespace(cases[c])
    } by {
        assert(case_error(s, roots, cases, c) is None);
    }
    assert forall|a: int, b: int| 0 <= a < b < cases.len() implies #[trigger] cases[a].id
        != #[trigger] cases[b].id by {
        assert(case_error(s, roots, cases, b) is None);
    }
    lemma_keys_unique_upto(s, roots, cases, cases.len() as int);
    assert(holds(ModelError::CaseId, s, roots, cases));
    assert(holds(ModelError::NativeMarker, s, roots, cases));
    assert(holds(ModelError::RegistryMismatch, s, roots, cases));
    assert(holds(ModelError::UnknownRoot, s, roots, cases));
    assert(holds(ModelError::TaggedRoot, s, roots, cases));
    assert(holds(ModelError::KeysNotAscending, s, roots, cases));
    assert(holds(ModelError::KeyNotUnique, s, roots, cases));
    assert(holds(ModelError::KeyNamespace, s, roots, cases));
    assert(holds(ModelError::Cycle, s, roots, cases));
    assert(holds(ModelError::OptionNotZeroInvalid, s, roots, cases));
    assert(holds(ModelError::UnusedSchema, s, roots, cases));
    assert(holds(ModelError::RootCount, s, roots, cases));
    assert(holds(ModelError::DuplicateRegistration, s, roots, cases));
}

/// The schema a type refers to.
fn type_ref_exec(t: &Type) -> (r: Option<&String>)
    ensures
        match r {
            Some(n) => type_ref(*t) == Some(n@),
            None => type_ref(*t) is None,
        },
    decreases t,
{
    match t {
        Type::Schema(n) => Some(n),
        Type::Array { element, .. } => type_ref_exec(&**element),
        Type::Option(inner) => type_ref_exec(&**inner),
        _ => None,
    }
}

/// The position of the schema named `n`.
fn lookup_index(s: &Vec<Schema>, n: &str) -> (r: Option<usize>)
    ensures
        match r {
            Some(i) => i < s@.len() && lookup(s@, n@) == Some(s@[i as int]),
            None => lookup(s@, n@) is None,
        },
{
    let mut found: Option<usize> = None;
    let mut i: usize = 0;
    while i < s.len()
        invariant
            i <= s@.len(),
            match found {
                Some(x) => x < i && s@[x as int].name@ == n@ && forall|j: int|
                    x < j < i ==> #[trigger] s@[j].name@ != n@,
                None => forall|j: int| 0 <= j < i ==> #[trigger] s@[j].name@ != n@,
            },
        decreases s@.len() - i,
    {
        if same_text(s[i].name.as_str(), n) {
            found = Some(i);
        }
        i += 1;
    }
    proof {
        match found {
            Some(x) => lemma_last_named_found(s@, n@, x as int),
            None => {
                if exists|x: int| last_named(s@, n@, x) {
                    let x = choose|x: int| last_named(s@, n@, x);
                    assert(s@[x].name@ == n@);
                }
            },
        }
    }
    found
}

/// Whether each schema is the one its name stands for.
fn effective_flags(s: &Vec<Schema>) -> (r: Vec<bool>)
    ensures
        r@.len() == s@.len(),
        forall|i: int| 0 <= i < s@.len() ==> r@[i] == effective(s@, i),
{
    let mut r: Vec<bool> = Vec::new();
    let mut i: usize = 0;
    while i < s.len()
        invariant
            i <= s@.len(),
            r@.len() == i,
            forall|x: int| 0 <= x < i ==> r@[x] == effective(s@, x),
        decreases s@.len() - i,
    {
        let mut last = true;
        let mut j: usize = i + 1;
        while j < s.len()
            invariant
                i < s@.len(),
                i < j <= s@.len(),
                last == forall|x: int| i < x < j ==> #[trigger] s@[x].name@ != s@[i as int].name@,
            decreases s@.len() - j,
        {
            if same_text(s[j].name.as_str(), s[i].name.as_str()) {
                last = false;
            }
            j += 1;
        }
        r.push(last);
        i += 1;
    }
    r
}

/// Checks the single-field rules for the `k`th field of a record.
#[verifier::spinoff_prover]
fn check_field(s: &Vec<Schema>, fields: &Vec<Field>, k: usize) -> (r: Result<(), ModelError>)
    requires
        k < fields@.len(),
    ensures
        r is Ok ==> field_rules(s@, fields@, k as int),
        r is Ok <==> field_error(s@, fields@, k as int) is None,
        r matches Err(e) ==> field_error(s@, fields@, k as int) == Some(e),
{
    let f = &fields[k];
    match type_ref_exec(&f.ty) {
        Some(n) => {
            if lookup_index(s, n.as_str()).is_none() {
                return Err(ModelError::UnknownSchema);
            }
        },
        None => {},
    }
    match &f.tag_field {
        None => {
            if let Type::Schema(n) = &f.ty {
                if let Some(i) = lookup_index(s, n.as_str()) {
                    if matches!(s[i].kind, SchemaKind::TaggedEnum { .. }) {
                        return Err(ModelError::TaggedPayloadWithoutTagField);
                    }
                }
            }
            Ok(())
        },
        Some(t) => {
            let mut a: usize = 0;
            while a < k
                invariant
                    k < fields@.len(),
                    a <= k,
                    f == fields@[k as int],
                    f.tag_field == Some(*t),
                    field_rule(ModelError::UnknownSchema, s@, fields@, k as int),
                    forall|b: int|
                        0 <= b < a ==> !(#[trigger] fields@[b].tag_field matches Some(u) && u@ == t@),
                decreases k - a,
            {
                if let Some(u) = &fields[a].tag_field {
                    if same_text(u.as_str(), t.as_str()) {
                        assert(fields@[a as int].tag_field matches Some(w) && w@ == t@);
                        return Err(ModelError::DuplicateTagField);
                    }
                }
                a += 1;
            }
            let p = match &f.ty {
                Type::Schema(p) => p,
                _ => {
                    return Err(ModelError::TagFieldNotOnPayload);
                },
            };
            let pi = match lookup_index(s, p.as_str()) {
                Some(pi) => pi,
                None => {
                    return Err(ModelError::TagFieldNeedsTaggedPayload);
                },
            };
            let tag = match &s[pi].kind {
                SchemaKind::TaggedEnum { tag, .. } => tag,
                _ => {
                    return Err(ModelError::TagFieldNeedsTaggedPayload);
                },
            };
            let gi = match field_position(fields, t.as_str()) {
                Some(gi) => gi,
                None => {
                    proof {
                        lemma_first_match_absent(fields@, field_named(t@));
                    }
                    return Err(ModelError::MissingTagSibling);
                },
            };
            proof {
                lemma_first_match_found(fields@, field_named(t@), gi as int);
            }
            let sn = match &fields[gi].ty {
                Type::Schema(sn) => sn,
                _ => {
                    return Err(ModelError::TagSiblingNotSchema);
                },
            };
            if !same_text(sn.as_str(), tag.as_str()) {
                return Err(ModelError::TagSiblingMismatch);
            }
            match lookup_index(s, sn.as_str()) {
                Some(yi) => {
                    if !matches!(s[yi].kind, SchemaKind::ScalarEnum { .. }) {
                        return Err(ModelError::TagSiblingMismatch);
                    }
                },
                None => {
                    return Err(ModelError::TagSiblingMismatch);
                },
            }
            Ok(())
        },
    }
}

/// Every single-field rule holds for every record field.
pub open spec fn all_field_rules(s: Seq<Schema>) -> bool {
    forall|i: int, k: int|
        0 <= i < s.len() && 0 <= k < fields_of(s[i]).len() ==> #[trigger] field_rules(
            s,
            fields_of(s[i]),
            k,
        )
}

/// Whether schema `i` refers to schema `j`.
fn has_ref(s: &Vec<Schema>, i: usize, j: usize) -> (r: bool)
    requires
        i < s@.len(),
        j < s@.len(),
    ensures
        r == refers(s@, i as int, j as int),
{
    let target = s[j].name.as_str();
    match &s[i].kind {
        SchemaKind::Struct { fields } => {
            let mut k: usize = 0;
            while k < fields.len()
                invariant
                    i < s@.len(),
                    j < s@.len(),
                    target@ == s@[j as int].name@,
                    s@[i as int].kind == (SchemaKind::Struct { fields: *fields }),
                    k <= fields@.len(),
                    forall|x: int| 0 <= x < k ==> child_at(s@[i as int], x) != Some(target@),
                decreases fields@.len() - k,
            {
                if let Some(n) = type_ref_exec(&fields[k].ty) {
                    if same_text(n.as_str(), target) {
                        assert(child_at(s@[i as int], k as int) == Some(s@[j as int].name@));
                        return true;
                    }
                }
                k += 1;
            }
            assert forall|x: int| #[trigger] child_at(s@[i as int], x) != Some(s@[j as int].name@) by {
                if 0 <= x < k {
                }
            }
            false
        },
        SchemaKind::TaggedEnum { variants, .. } => {
            let mut k: usize = 0;
            while k < variants.len()
                invariant
                    i < s@.len(),
                    j < s@.len(),
                    target@ == s@[j as int].name@,
                    s@[i as int].kind matches SchemaKind::TaggedEnum { variants: v, .. } && v == *variants,
                    k <= variants@.len(),
                    forall|x: int| 0 <= x < k ==> child_at(s@[i as int], x) != Some(target@),
                decreases variants@.len() - k,
            {
                if let Some(n) = &variants[k].payload {
                    if same_text(n.as_str(), target) {
                        assert(child_at(s@[i as int], k as int) == Some(s@[j as int].name@));
                        return true;
                    }
                }
                k += 1;
            }
            assert forall|x: int| #[trigger] child_at(s@[i as int], x) != Some(s@[j as int].name@) by {
                if 0 <= x < k {
                }
            }
            false
        },
        SchemaKind::ScalarEnum { .. } => {
            assert forall|x: int| #[trigger] child_at(s@[i as int], x) != Some(s@[j as int].name@) by {
            }
            false
        },
    }
}

/// The number of set flags.
pub open spec fn count_set(d: Seq<bool>) -> nat
    decreases d.len(),
{
    if d.len() == 0 {
        0
    } else {
        count_set(d.drop_last()) + if d.last() {
            1nat
        } else {
            0nat
        }
    }
}

proof fn lemma_count_none(d: Seq<bool>)
    requires
        forall|x: int| 0 <= x < d.len() ==> !d[x],
    ensures
        count_set(d) == 0,
    decreases d.len(),
{
    if d.len() > 0 {
        lemma_count_none(d.drop_last());
    }
}

proof fn lemma_count_bound(d: Seq<bool>)
    ensures
        count_set(d) <= d.len(),
    decreases d.len(),
{
    if d.len() > 0 {
        lemma_count_bound(d.drop_last());
    }
}

proof fn lemma_count_set_one(d: Seq<bool>, i: int)
    requires
        0 <= i < d.len(),
        !d[i],
    ensures
        count_set(d.update(i, true)) == count_set(d) + 1,
    decreases d.len(),
{
    if i == d.len() - 1 {
        assert(d.update(i, true).drop_last() =~= d.drop_last());
    } else {
        lemma_count_set_one(d.drop_last(), i);
        assert(d.update(i, true).drop_last() =~= d.drop_last().update(i, true));
    }
}

/// Every unfinished schema refers to an unfinished schema.
pub open spec fn stuck(s: Seq<Schema>, d: Seq<bool>) -> bool {
    forall|i: int|
        0 <= i < s.len() && !d[i] ==> exists|j: int|
            0 <= j < s.len() && !d[j] && #[trigger] edge(s, i, j)
}

proof fn lemma_stuck_rank(s: Seq<Schema>, d: Seq<bool>, rank: Seq<nat>, k: nat)
    requires
        ranked(s, rank),
        d.len() == s.len(),
        stuck(s, d),
    ensures
        forall|i: int| 0 <= i < s.len() && !d[i] ==> rank[i] >= k,
    decreases k,
{
    if k > 0 {
        lemma_stuck_rank(s, d, rank, (k - 1) as nat);
        assert forall|i: int| 0 <= i < s.len() && !d[i] implies rank[i] >= k by {
            let j = choose|j: int| 0 <= j < s.len() && !d[j] && #[trigger] edge(s, i, j);
            assert(rank[i] > rank[j]);
        }
    }
}

/// A stuck set of unfinished schemas holds a cycle.
proof fn lemma_stuck_cyclic(s: Seq<Schema>, d: Seq<bool>, i0: int)
    requires
        d.len() == s.len(),
        0 <= i0 < s.len(),
        !d[i0],
        stuck(s, d),
    ensures
        !acyclic(s),
{
    if acyclic(s) {
        let rank = choose|rank: Seq<nat>| ranked(s, rank);
        lemma_stuck_rank(s, d, rank, rank[i0] + 1);
    }
}

/// Finished schemas refer only to finished schemas of lower rank.
pub open spec fn partial_ranking(s: Seq<Schema>, d: Seq<bool>, rank: Seq<nat>, top: nat) -> bool {
    &&& d.len() == s.len()
    &&& rank.len() == s.len()
    &&& forall|i: int| 0 <= i < s.len() && d[i] ==> rank[i] <= top
    &&& forall|i: int, j: int|
        0 <= i < s.len() && 0 <= j < s.len() && d[i] && #[trigger] edge(s, i, j) ==> d[j] && rank[i]
            > rank[j]
}

/// Whether every schema `i` refers to is finished.
fn children_done(s: &Vec<Schema>, eff: &Vec<bool>, done: &Vec<bool>, i: usize) -> (r: bool)
    requires
        i < s@.len(),
        done@.len() == s@.len(),
        eff@.len() == s@.len(),
        forall|x: int| 0 <= x < s@.len() ==> eff@[x] == effective(s@, x),
    ensures
        r == forall|j: int| 0 <= j < s@.len() && #[trigger] edge(s@, i as int, j) ==> done@[j],
{
    let mut j: usize = 0;
    while j < s.len()
        invariant
            i < s@.len(),
            done@.len() == s@.len(),
            eff@.len() == s@.len(),
            forall|x: int| 0 <= x < s@.len() ==> eff@[x] == effective(s@, x),
            j <= s@.len(),
            forall|x: int| 0 <= x < j && #[trigger] edge(s@, i as int, x) ==> done@[x],
        decreases s@.len() - j,
    {
        if !done[j] && eff[i] && eff[j] && has_ref(s, i, j) {
            assert(edge(s@, i as int, j as int));
            return false;
        }
        j += 1;
    }
    true
}

/// Checks that no schema reaches itself: schemas are finished in rounds, a
/// schema once everything it refers to is finished, until a round finishes
/// none.
#[verifier::spinoff_prover]
fn check_acyclic(s: &Vec<Schema>) -> (r: bool)
    ensures
        r == acyclic(s@),
{
    let eff = effective_flags(s);
    let n = s.len();
    let mut done: Vec<bool> = Vec::new();
    while done.len() < n
        invariant
            done@.len() <= n,
            forall|x: int| 0 <= x < done@.len() ==> !done@[x],
        decreases n - done@.len(),
    {
        done.push(false);
    }
    let ghost mut rank: Seq<nat> = Seq::new(n as nat, |x: int| 0nat);
    let mut marked: usize = 0;
    proof {
        lemma_count_none(done@);
    }
    let mut progress = true;
    while progress
        invariant
            n == s@.len(),
            eff@.len() == s@.len(),
            forall|x: int| 0 <= x < s@.len() ==> eff@[x] == effective(s@, x),
            partial_ranking(s@, done@, rank, marked as nat),
            marked == count_set(done@),
            !progress ==> stuck(s@, done@),
        decreases 2 * (n - marked) + if progress {
            1int
        } else {
            0int
        },
    {
        proof {
            lemma_count_bound(done@);
        }
        let ghost start = done@;
        let ghost marked0 = marked;
        let mut changed = false;
        let mut i: usize = 0;
        while i < n
            invariant
                n == s@.len(),
                eff@.len() == s@.len(),
                forall|x: int| 0 <= x < s@.len() ==> eff@[x] == effective(s@, x),
            eff@.len() == s@.len(),
            forall|x: int| 0 <= x < s@.len() ==> eff@[x] == effective(s@, x),
                i <= n,
                partial_ranking(s@, done@, rank, marked as nat),
                marked == count_set(done@),
                marked <= n,
                marked0 <= marked,
                !changed ==> done@ == start && marked == marked0,
                changed ==> marked > marked0,
                !changed ==> forall|x: int|
                    0 <= x < i && !start[x] ==> exists|j: int|
                        0 <= j < s@.len() && !start[j] && #[trigger] edge(s@, x, j),
            decreases n - i,
        {
            if !done[i] && children_done(s, &eff, &done, i) {
                proof {
                    lemma_count_set_one(done@, i as int);
                    lemma_count_bound(done@.update(i as int, true));
                    rank = rank.update(i as int, (marked + 1) as nat);
                }
                done.set(i, true);
                marked = marked + 1;
                changed = true;
            } else {
                proof {
                    if !changed && !start[i as int] {
                        let j = choose|j: int| 0 <= j < s@.len() && #[trigger] edge(s@, i as int, j) && !done@[j];
                    }
                }
            }
            i += 1;
        }
        progress = changed;
    }
    let mut k: usize = 0;
    while k < n
        invariant
            n == s@.len(),
            eff@.len() == s@.len(),
            forall|x: int| 0 <= x < s@.len() ==> eff@[x] == effective(s@, x),
            k <= n,
            partial_ranking(s@, done@, rank, marked as nat),
            stuck(s@, done@),
            forall|x: int| 0 <= x < k ==> done@[x],
        decreases n - k,
    {
        if !done[k] {
            proof {
                lemma_stuck_cyclic(s@, done@, k as int);
            }
            return false;
        }
        k += 1;
    }
    assert(ranked(s@, rank));
    true
}

/// Whether every all-zero value of `t` is invalid.
fn zero_invalid_exec(s: &Vec<Schema>, t: &Type, fuel: usize) -> (r: bool)
    ensures
        r == zero_invalid(s@, *t, fuel as nat),
    decreases fuel, t,
{
    match t {
        Type::Schema(n) => {
            if fuel == 0 {
                return false;
            }
            match lookup_index(s, n.as_str()) {
                None => false,
                Some(x) => match &s[x].kind {
                    SchemaKind::ScalarEnum { variants, .. } => {
                        if variants.len() == 0 {
                            return false;
                        }
                        let mut v: usize = 0;
                        while v < variants.len()
                            invariant
                                fuel > 0,
                                *t == Type::Schema(*n),
                                x < s@.len(),
                                lookup(s@, n@) == Some(s@[x as int]),
                                s@[x as int].kind matches SchemaKind::ScalarEnum { variants: vs, .. } && vs == *variants,
                                v <= variants@.len(),
                                forall|w: int| 0 <= w < v ==> variants@[w].raw != 0,
                            decreases variants@.len() - v,
                        {
                            if variants[v].raw == 0 {
                                assert(!(forall|w: int| 0 <= w < variants@.len() ==> variants@[w].raw != 0));
                                return false;
                            }
                            v += 1;
                        }
                        true
                    },
                    SchemaKind::Struct { fields } => {
                        let mut k: usize = 0;
                        while k < fields.len()
                            invariant
                                fuel > 0,
                                *t == Type::Schema(*n),
                                x < s@.len(),
                                lookup(s@, n@) == Some(s@[x as int]),
                                s@[x as int].kind == (SchemaKind::Struct { fields: *fields }),
                                k <= fields@.len(),
                                forall|j: int|
                                    0 <= j < k ==> !zero_invalid(
                                        s@,
                                        #[trigger] fields@[j].ty,
                                        (fuel - 1) as nat,
                                    ),
                            decreases fields@.len() - k,
                        {
                            if zero_invalid_exec(s, &fields[k].ty, fuel - 1) {
                                assert(exists|j: int|
                                    0 <= j < fields@.len() && zero_invalid(
                                        s@,
                                        #[trigger] fields@[j].ty,
                                        (fuel - 1) as nat,
                                    ));
                                return true;
                            }
                            k += 1;
                        }
                        false
                    },
                    SchemaKind::TaggedEnum { .. } => false,
                },
            }
        },
        Type::Array { element, length } => *length != 0 && zero_invalid_exec(s, &**element, fuel),
        _ => false,
    }
}

/// Checks that every optional field holds a type whose all-zero value is
/// invalid, so that all zero bytes can stand for absence.
fn check_options(s: &Vec<Schema>) -> (r: Result<(), ModelError>)
    ensures
        r is Ok ==> holds(ModelError::OptionNotZeroInvalid, s@, Seq::empty(), Seq::empty()),
        r matches Err(e) ==> e == ModelError::OptionNotZeroInvalid && !holds(e, s@, Seq::empty(), Seq::empty()),
{
    let mut i: usize = 0;
    while i < s.len()
        invariant
            i <= s@.len(),
            forall|x: int, k: int|
                0 <= x < i && 0 <= k < fields_of(s@[x]).len() ==> (#[trigger] fields_of(
                    s@[x],
                )[k].ty matches Type::Option(inner) ==> option_eligible(s@, *inner)),
        decreases s@.len() - i,
    {
        if let SchemaKind::Struct { fields } = &s[i].kind {
            let mut k: usize = 0;
            while k < fields.len()
                invariant
                    i < s@.len(),
                    k <= fields@.len(),
                    fields@ == fields_of(s@[i as int]),
                    forall|x: int, k: int|
                        0 <= x < i && 0 <= k < fields_of(s@[x]).len() ==> (#[trigger] fields_of(
                            s@[x],
                        )[k].ty matches Type::Option(inner) ==> option_eligible(s@, *inner)),
                    forall|j: int|
                        0 <= j < k ==> (#[trigger] fields@[j].ty matches Type::Option(inner)
                            ==> option_eligible(s@, *inner)),
                decreases fields@.len() - k,
            {
                if let Type::Option(inner) = &fields[k].ty {
                    let t: &Type = &**inner;
                    let eligible = match t {
                        Type::Schema(_) => zero_invalid_exec(s, t, s.len()),
                        Type::Array { element, length } => *length != 0 && matches!(
                            **element,
                            Type::Schema(_)
                        ) && zero_invalid_exec(s, &**element, s.len()),
                        _ => false,
                    };
                    if !eligible {
                        return Err(ModelError::OptionNotZeroInvalid);
                    }
                }
                k += 1;
            }
        }
        i += 1;
    }
    Ok(())
}

/// The name of a case's root schema.
fn root_name_exec(c: &Case) -> (r: &String)
    ensures
        r@ == root_name(*c),
{
    match &c.root {
        Root::Schema(n) => n,
    }
}

/// The keys of a case's layout entries.
fn layout_keys_exec(c: &Case) -> (r: Vec<u64>)
    ensures
        r@ == layout_keys(*c),
{
    let mut v: Vec<u64> = Vec::new();
    let mut a: usize = 0;
    while a < c.layout.len()
        invariant
            a <= c.layout@.len(),
            v@ == layout_keys(*c).take(a as int),
        decreases c.layout@.len() - a,
    {
        v.push(c.layout[a].key);
        a += 1;
        assert(v@ =~= layout_keys(*c).take(a as int));
    }
    assert(v@ =~= layout_keys(*c));
    v
}

/// The keys of a case's observation entries.
fn observe_keys_exec(c: &Case) -> (r: Vec<u64>)
    ensures
        r@ == observe_keys(*c),
{
    let mut v: Vec<u64> = Vec::new();
    let mut a: usize = 0;
    while a < c.observe.len()
        invariant
            a <= c.observe@.len(),
            v@ == observe_keys(*c).take(a as int),
        decreases c.observe@.len() - a,
    {
        v.push(c.observe[a].key);
        a += 1;
        assert(v@ =~= observe_keys(*c).take(a as int));
    }
    assert(v@ =~= observe_keys(*c));
    v
}

/// Whether `k` is nonempty and strictly ascending.
fn ascending_exec(k: &Vec<u64>) -> (r: bool)
    ensures
        r == ascending(k@),
{
    if k.len() == 0 {
        return false;
    }
    let mut a: usize = 1;
    while a < k.len()
        invariant
            1 <= a <= k@.len(),
            forall|x: int, y: int| 0 <= x < y < a ==> k@[x] < k@[y],
        decreases k@.len() - a,
    {
        if k[a - 1] >= k[a] {
            return false;
        }
        a += 1;
    }
    true
}

/// Whether schema `j` is the root of some case.
fn is_case_root(s: &Vec<Schema>, cases: &Vec<Case>, j: usize) -> (r: bool)
    requires
        j < s@.len(),
    ensures
        r == reached(s@, cases@, 0, j as int),
{
    let mut c: usize = 0;
    while c < cases.len()
        invariant
            j < s@.len(),
            c <= cases@.len(),
            forall|x: int| 0 <= x < c ==> #[trigger] root_name(cases@[x]) != s@[j as int].name@,
        decreases cases@.len() - c,
    {
        if same_text(root_name_exec(&cases[c]).as_str(), s[j].name.as_str()) {
            return true;
        }
        c += 1;
    }
    false
}

/// Checks that every schema is reached from some case root.
#[verifier::spinoff_prover]
fn check_reach(s: &Vec<Schema>, cases: &Vec<Case>) -> (r: bool)
    ensures
        r == holds(ModelError::UnusedSchema, s@, Seq::empty(), cases@),
{
    let eff = effective_flags(s);
    let n = s.len();
    let mut cur: Vec<bool> = Vec::new();
    while cur.len() < n
        invariant
            n == s@.len(),
            eff@.len() == s@.len(),
            forall|x: int| 0 <= x < s@.len() ==> eff@[x] == effective(s@, x),
            cur@.len() <= n,
            forall|j: int| 0 <= j < cur@.len() ==> cur@[j] == reached(s@, cases@, 0, j),
        decreases n - cur@.len(),
    {
        let j = cur.len();
        let root = is_case_root(s, cases, j);
        cur.push(root);
    }
    let mut k: usize = 0;
    while k < n
        invariant
            n == s@.len(),
            eff@.len() == s@.len(),
            forall|x: int| 0 <= x < s@.len() ==> eff@[x] == effective(s@, x),
            k <= n,
            cur@.len() == n,
            forall|j: int| 0 <= j < n ==> cur@[j] == reached(s@, cases@, k as nat, j),
        decreases n - k,
    {
        let mut next: Vec<bool> = Vec::new();
        while next.len() < n
            invariant
                n == s@.len(),
                eff@.len() == s@.len(),
                forall|x: int| 0 <= x < s@.len() ==> eff@[x] == effective(s@, x),
            eff@.len() == s@.len(),
            forall|x: int| 0 <= x < s@.len() ==> eff@[x] == effective(s@, x),
                k < n,
                cur@.len() == n,
                forall|j: int| 0 <= j < n ==> cur@[j] == reached(s@, cases@, k as nat, j),
                next@.len() <= n,
                forall|j: int|
                    0 <= j < next@.len() ==> next@[j] == reached(s@, cases@, (k + 1) as nat, j),
            decreases n - next@.len(),
        {
            let j = next.len();
            let mut hit = cur[j];
            let mut i: usize = 0;
            while i < n
                invariant
                    n == s@.len(),
                    eff@.len() == s@.len(),
                    forall|x: int| 0 <= x < s@.len() ==> eff@[x] == effective(s@, x),
                eff@.len() == s@.len(),
                forall|x: int| 0 <= x < s@.len() ==> eff@[x] == effective(s@, x),
            eff@.len() == s@.len(),
            forall|x: int| 0 <= x < s@.len() ==> eff@[x] == effective(s@, x),
                    j < n,
                    cur@.len() == n,
                    forall|x: int| 0 <= x < n ==> cur@[x] == reached(s@, cases@, k as nat, x),
                    i <= n,
                    hit == (cur@[j as int] || exists|x: int|
                        0 <= x < i && cur@[x] && #[trigger] leads(s@, x, j as int)),
                decreases n - i,
            {
                if !hit && cur[i] && eff[i] && has_ref(s, i, j) {
                    assert(leads(s@, i as int, j as int));
                    hit = true;
                }
                i += 1;
            }
            proof {
                if hit && !cur@[j as int] {
                    let x = choose|x: int| 0 <= x < n && cur@[x] && #[trigger] leads(s@, x, j as int);
                    assert(reached(s@, cases@, k as nat, x));
                }
                if !hit {
                    assert forall|x: int|
                        0 <= x < s@.len() && reached(s@, cases@, k as nat, x) implies !#[trigger] leads(
                        s@,
                        x,
                        j as int,
                    ) by {
                        assert(cur@[x]);
                    }
                }
            }
            next.push(hit);
        }
        cur = next;
        k += 1;
    }
    let mut j: usize = 0;
    while j < n
        invariant
            n == s@.len(),
            eff@.len() == s@.len(),
            forall|x: int| 0 <= x < s@.len() ==> eff@[x] == effective(s@, x),
            j <= n,
            cur@.len() == n,
            forall|x: int| 0 <= x < n ==> cur@[x] == reached(s@, cases@, n as nat, x),
            forall|x: int| 0 <= x < j ==> #[trigger] reached(s@, cases@, n as nat, x),
        decreases n - j,
    {
        if !cur[j] {
            return false;
        }
        j += 1;
    }
    true
}

/// Checks that no two registrations share a case identity.
fn check_registrations(roots: &Vec<RootRegistration>) -> (r: bool)
    ensures
        r == holds(ModelError::DuplicateRegistration, Seq::empty(), roots@, Seq::empty()),
{
    let mut b: usize = 0;
    while b < roots.len()
        invariant
            b <= roots@.len(),
            forall|x: int, y: int|
                0 <= x < y < b ==> #[trigger] roots@[x].case_id != #[trigger] roots@[y].case_id,
        decreases roots@.len() - b,
    {
        let mut a: usize = 0;
        while a < b
            invariant
                b < roots@.len(),
                a <= b,
                forall|x: int| 0 <= x < a ==> #[trigger] roots@[x].case_id != roots@[b as int].case_id,
            decreases b - a,
        {
            if roots[a].case_id == roots[b].case_id {
                return false;
            }
            a += 1;
        }
        b += 1;
    }
    true
}

proof fn lemma_field_rule_holds(
    e: ModelError,
    s: Seq<Schema>,
    roots: Seq<RootRegistration>,
    cases: Seq<Case>,
)
    requires
        all_field_rules(s),
        e is UnknownSchema || e is TaggedPayloadWithoutTagField || e is DuplicateTagField
            || e is TagFieldNotOnPayload || e is TagFieldNeedsTaggedPayload || e is MissingTagSibling
            || e is TagSiblingNotSchema || e is TagSiblingMismatch,
    ensures
        holds(e, s, roots, cases),
{
    assert forall|i: int, k: int| 0 <= i < s.len() && 0 <= k < fields_of(s[i]).len() implies #[trigger] field_rule(
        e,
        s,
        fields_of(s[i]),
        k,
    ) by {
        assert(field_rules(s, fields_of(s[i]), k));
    }
}

/// Checks one schema declaration: a record's fields in order, a tagged
/// payload's tag before its variants.
fn check_schema(s: &Vec<Schema>, i: usize) -> (r: Result<(), ModelError>)
    requires
        i < s@.len(),
    ensures
        r is Ok <==> schema_error(s@, s@[i as int]) is None,
        r matches Err(e) ==> schema_error(s@, s@[i as int]) == Some(e),
{
    match &s[i].kind {
        SchemaKind::Struct { fields } => {
            let mut k: usize = 0;
            while k < fields.len()
                invariant
                    i < s@.len(),
                    k <= fields@.len(),
                    s@[i as int].kind == (SchemaKind::Struct { fields: *fields }),
                    record_error(s@, fields@, k as int) is None,
                decreases fields@.len() - k,
            {
                match check_field(s, fields, k) {
                    Ok(()) => {},
                    Err(e) => {
                        proof {
                            lemma_record_error_stays(s@, fields@, k + 1, fields@.len() as int);
                        }
                        return Err(e);
                    },
                }
                k += 1;
            }
            Ok(())
        },
        SchemaKind::TaggedEnum { tag, variants } => {
            match lookup_index(s, tag.as_str()) {
                Some(y) => {
                    if !matches!(s[y].kind, SchemaKind::ScalarEnum { .. }) {
                        return Err(ModelError::TagNotScalarEnum);
                    }
                },
                None => {
                    return Err(ModelError::TagNotScalarEnum);
                },
            }
            let mut k: usize = 0;
            while k < variants.len()
                invariant
                    i < s@.len(),
                    s@[i as int].kind == (SchemaKind::TaggedEnum { tag: *tag, variants: *variants }),
                    tag_ok(s@, tag@),
                    k <= variants@.len(),
                    forall|j: int|
                        0 <= j < k ==> (opt_view(#[trigger] variants@[j].payload) matches Some(n)
                            ==> lookup(s@, n) is Some),
                decreases variants@.len() - k,
            {
                if let Some(p) = &variants[k].payload {
                    if lookup_index(s, p.as_str()).is_none() {
                        assert(opt_view(variants@[k as int].payload) == Some(p@));
                        return Err(ModelError::UnknownVariantPayload);
                    }
                }
                k += 1;
            }
            Ok(())
        },
        SchemaKind::ScalarEnum { .. } => Ok(()),
    }
}

/// Whether `v` holds `x`.
fn holds_key(v: &Vec<u64>, x: u64) -> (r: bool)
    ensures
        r == v@.contains(x),
{
    let mut i: usize = 0;
    while i < v.len()
        invariant
            i <= v@.len(),
            forall|j: int| 0 <= j < i ==> v@[j] != x,
        decreases v@.len() - i,
    {
        if v[i] == x {
            assert(v@[i as int] == x);
            return true;
        }
        i += 1;
    }
    false
}

/// Whether the keys `k` are nonzero and absent from `prev` and `extra`.
fn fresh_exec(k: &Vec<u64>, prev: &Vec<u64>, extra: &Vec<u64>) -> (r: bool)
    ensures
        r == fresh(k@, prev@ + extra@),
{
    let ghost all = prev@ + extra@;
    let mut a: usize = 0;
    while a < k.len()
        invariant
            a <= k@.len(),
            all == prev@ + extra@,
            forall|x: int| 0 <= x < a ==> #[trigger] k@[x] != 0 && !all.contains(k@[x]),
        decreases k@.len() - a,
    {
        let v = k[a];
        if v == 0 {
            assert(k@[a as int] == 0);
            return false;
        }
        if holds_key(prev, v) {
            proof {
                let j = choose|j: int| 0 <= j < prev@.len() && prev@[j] == v;
                assert(all[j] == v);
                assert(k@[a as int] == v);
            }
            return false;
        }
        if holds_key(extra, v) {
            proof {
                let j = choose|j: int| 0 <= j < extra@.len() && extra@[j] == v;
                assert(all[prev@.len() + j] == v);
                assert(k@[a as int] == v);
            }
            return false;
        }
        assert(!all.contains(v)) by {
            if all.contains(v) {
                let j = choose|j: int| 0 <= j < all.len() && all[j] == v;
                if j < prev@.len() {
                    assert(prev@[j] == v);
                } else {
                    assert(extra@[j - prev@.len()] == v);
                }
            }
        }
        a += 1;
    }
    true
}

/// Checks one case, given the keys of the cases before it: its identity,
/// native marker, registration, root, layout keys, observation keys and key
/// namespace.
#[verifier::spinoff_prover]
#[verifier::rlimit(30)]
fn check_case(
    s: &Vec<Schema>,
    roots: &Vec<RootRegistration>,
    cases: &Vec<Case>,
    c: usize,
    prev: &Vec<u64>,
) -> (r: Result<(), ModelError>)
    requires
        c < cases@.len(),
        prev@ == keys_upto(cases@, c as int),
    ensures
        r is Ok <==> case_error(s@, roots@, cases@, c as int) is None,
        r matches Err(e) ==> case_error(s@, roots@, cases@, c as int) == Some(e),
{
    let x = &cases[c];
    let id = x.id;
    if !(1001 <= id && id <= 1016 && id != 1009) {
        return Err(ModelError::CaseId);
    }
    let mut a: usize = 0;
    while a < c
        invariant
            c < cases@.len(),
            a <= c,
            id == cases@[c as int].id,
            forall|y: int| 0 <= y < a ==> #[trigger] cases@[y].id != id,
        decreases c - a,
    {
        if cases[a].id == id {
            assert(cases@[a as int].id == cases@[c as int].id);
            return Err(ModelError::CaseId);
        }
        a += 1;
    }
    if x.native != (1012 <= id && id <= 1016) {
        return Err(ModelError::NativeMarker);
    }
    let mut r: usize = 0;
    let mut found = false;
    while r < roots.len()
        invariant
            c < cases@.len(),
            *x == cases@[c as int],
            r <= roots@.len(),
            found ==> registered(roots@, *x),
            !found ==> forall|y: int|
                0 <= y < r ==> !(#[trigger] roots@[y].case_id == x.id && roots@[y].root_id@ == x.root_id@),
        decreases roots@.len() - r,
    {
        if !found && roots[r].case_id == x.id && same_text(roots[r].root_id.as_str(), x.root_id.as_str()) {
            found = true;
        }
        r += 1;
    }
    if !found {
        return Err(ModelError::RegistryMismatch);
    }
    match lookup_index(s, root_name_exec(x).as_str()) {
        None => {
            return Err(ModelError::UnknownRoot);
        },
        Some(y) => {
            if matches!(s[y].kind, SchemaKind::TaggedEnum { .. }) {
                return Err(ModelError::TaggedRoot);
            }
        },
    }
    let layout = layout_keys_exec(x);
    if !ascending_exec(&layout) {
        return Err(ModelError::KeysNotAscending);
    }
    let none: Vec<u64> = Vec::new();
    assert(prev@ + none@ =~= prev@);
    if !fresh_exec(&layout, prev, &none) {
        return Err(ModelError::KeyNotUnique);
    }
    let observe = observe_keys_exec(x);
    if !ascending_exec(&observe) {
        return Err(ModelError::KeysNotAscending);
    }
    if !fresh_exec(&observe, prev, &layout) {
        return Err(ModelError::KeyNotUnique);
    }
    if !in_namespace_exec(x) {
        return Err(ModelError::KeyNamespace);
    }
    Ok(())
}

/// Whether a case's keys lie in its own namespace.
fn in_namespace_exec(x: &Case) -> (r: bool)
    ensures
        r == in_namespace(*x),
{
    let base: u64 = (x.id as u64) * 1000;
    let layout = layout_keys_exec(x);
    let observe = observe_keys_exec(x);
    let mut a: usize = 0;
    while a < layout.len()
        invariant
            base == x.id * 1000,
            layout@ == layout_keys(*x),
            a <= layout@.len(),
            forall|y: int| 0 <= y < a ==> base + 1 <= #[trigger] layout@[y] <= base + 499,
        decreases layout@.len() - a,
    {
        if layout[a] < base + 1 || layout[a] > base + 499 {
            return false;
        }
        a += 1;
    }
    let mut a: usize = 0;
    while a < observe.len()
        invariant
            base == x.id * 1000,
            observe@ == observe_keys(*x),
            layout@ == layout_keys(*x),
            forall|y: int| 0 <= y < layout@.len() ==> base + 1 <= #[trigger] layout@[y] <= base + 499,
            a <= observe@.len(),
            forall|y: int| 0 <= y < a ==> base + 501 <= #[trigger] observe@[y] <= base + 999,
        decreases observe@.len() - a,
    {
        if observe[a] < base + 501 || observe[a] > base + 999 {
            return false;
        }
        a += 1;
    }
    true
}

/// Checks a conformance model and, when it follows every rule, assembles it.
///
/// The model is accepted exactly when every rule holds. A refusal names the
/// first broken rule in the order of `first_error`: the counts, the
/// registrations, the schema declarations one by one, cycles, optional
/// fields, the cases one by one, and last the reach of every schema.
#[verifier::spinoff_prover]
pub fn validate_model(schemas: Vec<Schema>, roots: Vec<RootRegistration>, cases: Vec<Case>) -> (r:
    Result<Model, ModelError>)
    ensures
        r is Ok <==> model_valid(schemas@, roots@, cases@),
        r is Ok <==> first_error(schemas@, roots@, cases@) is None,
        r matches Err(e) ==> first_error(schemas@, roots@, cases@) == Some(e),
        r matches Ok(m) ==> m.schemas@ == schemas@ && m.cases@ == cases@,
{
    let ghost (s, rs, cs) = (schemas@, roots@, cases@);
    if cases.len() != CASE_COUNT || roots.len() != CASE_COUNT {
        return Err(ModelError::RootCount);
    }
    if !check_registrations(&roots) {
        return Err(ModelError::DuplicateRegistration);
    }
    let mut i: usize = 0;
    while i < schemas.len()
        invariant
            i <= s.len(),
            s == schemas@,
            rs == roots@,
            cs == cases@,
            holds(ModelError::RootCount, s, rs, cs),
            holds(ModelError::DuplicateRegistration, s, rs, cs),
            schemas_error(s, i as int) is None,
        decreases s.len() - i,
    {
        match check_schema(&schemas, i) {
            Ok(()) => {},
            Err(e) => {
                proof {
                    lemma_schemas_error_stays(s, i + 1, s.len() as int);
                    if model_valid(s, rs, cs) {
                        lemma_valid_no_error(s, rs, cs);
                    }
                }
                return Err(e);
            },
        }
        i += 1;
    }
    if !check_acyclic(&schemas) {
        return Err(ModelError::Cycle);
    }
    match check_options(&schemas) {
        Ok(()) => {},
        Err(e) => {
            return Err(e);
        },
    }
    let mut prev: Vec<u64> = Vec::new();
    let mut c: usize = 0;
    while c < cases.len()
        invariant
            c <= cs.len(),
            s == schemas@,
            rs == roots@,
            cs == cases@,
            prev@ == keys_upto(cs, c as int),
            holds(ModelError::RootCount, s, rs, cs),
            holds(ModelError::DuplicateRegistration, s, rs, cs),
            schemas_error(s, s.len() as int) is None,
            acyclic(s),
            holds(ModelError::OptionNotZeroInvalid, s, rs, cs),
            cases_error(s, rs, cs, c as int) is None,
        decreases cs.len() - c,
    {
        match check_case(&schemas, &roots, &cases, c, &prev) {
            Ok(()) => {},
            Err(e) => {
                proof {
                    lemma_cases_error_stays(s, rs, cs, c + 1, cs.len() as int);
                    if model_valid(s, rs, cs) {
                        lemma_valid_no_error(s, rs, cs);
                    }
                }
                return Err(e);
            },
        }
        let mut layout = layout_keys_exec(&cases[c]);
        let mut observe = observe_keys_exec(&cases[c]);
        prev.append(&mut layout);
        prev.append(&mut observe);
        c += 1;
    }
    if !check_reach(&schemas, &cases) {
        return Err(ModelError::UnusedSchema);
    }
    proof {
        assert(first_error(s, rs, cs) is None);
        lemma_no_error_valid(s, rs, cs);
    }
    Ok(Model { schemas, cases })
}

} // verus!

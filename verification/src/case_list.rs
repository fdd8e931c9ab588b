//! The case list of the conformance suite: one `conformance_cases!` invocation
//! holding `case { .. }` blocks, each naming the case's identity, root, value,
//! expected layout facts and observations.

use vstd::prelude::*;

use crate::cases::{extent, is_kw, is_punct, kw, parse_at, parses_as, value_extent, Delim, Tok};
use crate::conformance::{same_text, Case, Metric, MetricEntry, Observation, ObservationEntry, Root};

verus! {

/// One item of the case file.
#[derive(Debug)]
pub enum CaseFileItem {
    /// A macro invocation: its path when that is one plain identifier, whether
    /// it carries attributes, a name or a trailing semicolon, and its tokens.
    Macro { name: Option<String>, has_attrs: bool, has_ident: bool, has_semi: bool, tokens: Vec<Tok> },
    Other,
}

/// A case file refused by the case-list grammar.
#[derive(Clone, Copy, Debug, PartialEq, Eq, Structural)]
pub enum CaseListError {
    Refused,
}

pub open spec fn names_of(v: Seq<String>) -> Seq<Seq<char>> {
    v.map_values(|s: String| s@)
}

/// Identifiers separated by dots.
pub open spec fn dotted_names(toks: Seq<Tok>) -> Option<Seq<Seq<char>>>
    decreases toks.len(),
{
    if toks.len() == 0 {
        None
    } else {
        match toks[0] {
            Tok::Ident(n) => if toks.len() == 1 {
                Some(seq![n@])
            } else if toks[1] == Tok::Punct('.') {
                match dotted_names(toks.subrange(2, toks.len() as int)) {
                    Some(rest) => Some(seq![n@] + rest),
                    None => None,
                }
            } else {
                None
            },
            _ => None,
        }
    }
}

/// The arguments of a metric: dotted identifiers, possibly none, with an
/// optional trailing dot.
pub open spec fn call_names(toks: Seq<Tok>) -> Option<Seq<Seq<char>>> {
    if toks.len() == 0 {
        Some(Seq::empty())
    } else if toks.last() == Tok::Punct('.') {
        dotted_names(toks.drop_last())
    } else {
        dotted_names(toks)
    }
}

/// The name a metric is written with.
pub open spec fn metric_name(m: Metric) -> Seq<char> {
    match m {
        Metric::RootSize => "root_size"@,
        Metric::RootAlign => "root_align"@,
        Metric::RootStride => "root_stride"@,
        Metric::FieldOffset(_) => "field_offset"@,
        Metric::FieldSize(_) => "field_size"@,
        Metric::FieldAlign(_) => "field_align"@,
        Metric::ArrayLength(_) => "array_length"@,
        Metric::ArrayStride(_) => "array_stride"@,
        Metric::OptionalSpan(_) => "optional_span"@,
        Metric::OptionalIsOptional(_) => "optional_is_optional"@,
        Metric::OptionalArrayLength(_) => "optional_array_length"@,
        Metric::OptionalArrayStride(_) => "optional_array_stride"@,
        Metric::TagOffset => "tag_offset"@,
        Metric::PayloadOffset => "payload_offset"@,
        Metric::PayloadSize => "payload_size"@,
        Metric::PayloadAlign => "payload_align"@,
        Metric::TagSize => "tag_size"@,
        Metric::TagAlign => "tag_align"@,
        Metric::TagEndian => "tag_endian"@,
        Metric::VariantRaw(_) => "variant_raw"@,
        Metric::VariantPayloadSize(_) => "variant_payload_size"@,
        Metric::VariantPayloadAlign(_) => "variant_payload_align"@,
        Metric::EnumSize(_) => "enum_size"@,
        Metric::EnumAlign(_) => "enum_align"@,
        Metric::EnumWidth(_) => "enum_width"@,
        Metric::EnumEndian(_) => "enum_endian"@,
        Metric::EnumRaw(_) => "enum_raw"@,
        Metric::StringEncoding(_) => "string_encoding"@,
        Metric::StringCapacity(_) => "string_capacity"@,
        Metric::StringUnitWidth(_) => "string_unit_width"@,
        Metric::StringDataOffset(_) => "string_data_offset"@,
        Metric::StringLengthWidth(_) => "string_length_width"@,
        Metric::StringLengthEndian(_) => "string_length_endian"@,
        Metric::StringLengthOffset(_) => "string_length_offset"@,
    }
}

/// The argument a metric names, if it takes one.
pub open spec fn metric_arg(m: Metric) -> Option<Seq<char>> {
    match m {
        Metric::FieldOffset(s) => Some(s@),
        Metric::FieldSize(s) => Some(s@),
        Metric::FieldAlign(s) => Some(s@),
        Metric::ArrayLength(s) => Some(s@),
        Metric::ArrayStride(s) => Some(s@),
        Metric::OptionalSpan(s) => Some(s@),
        Metric::OptionalIsOptional(s) => Some(s@),
        Metric::OptionalArrayLength(s) => Some(s@),
        Metric::OptionalArrayStride(s) => Some(s@),
        Metric::VariantRaw(s) => Some(s@),
        Metric::VariantPayloadSize(s) => Some(s@),
        Metric::VariantPayloadAlign(s) => Some(s@),
        Metric::EnumSize(s) => Some(s@),
        Metric::EnumAlign(s) => Some(s@),
        Metric::EnumWidth(s) => Some(s@),
        Metric::EnumEndian(s) => Some(s@),
        Metric::EnumRaw(s) => Some(s@),
        Metric::StringEncoding(s) => Some(s@),
        Metric::StringCapacity(s) => Some(s@),
        Metric::StringUnitWidth(s) => Some(s@),
        Metric::StringDataOffset(s) => Some(s@),
        Metric::StringLengthWidth(s) => Some(s@),
        Metric::StringLengthEndian(s) => Some(s@),
        Metric::StringLengthOffset(s) => Some(s@),
        _ => None,
    }
}

/// The arguments a metric is written with.
pub open spec fn metric_args(m: Metric) -> Seq<Seq<char>> {
    match metric_arg(m) {
        Some(s) => seq![s],
        None => Seq::empty(),
    }
}

/// `e` is exactly one layout entry `key: K, metric: name(args)`.
pub open spec fn entry_as(e: Seq<Tok>, x: MetricEntry) -> bool {
    &&& (e.len() == 8 || (e.len() == 9 && e[8] == Tok::Punct(',')))
    &&& is_kw(e[0], "key"@)
    &&& e[1] == Tok::Punct(':')
    &&& e[2] == Tok::Int(x.key)
    &&& e[3] == Tok::Punct(',')
    &&& is_kw(e[4], "metric"@)
    &&& e[5] == Tok::Punct(':')
    &&& e[6] matches Tok::Ident(n)
    &&& n@ == metric_name(x.metric)
    &&& e[7] matches Tok::Group(Delim::Paren, args)
    &&& call_names(args@) == Some(metric_args(x.metric))
}

/// The tokens after a braced entry and its optional comma.
pub open spec fn after_entry(toks: Seq<Tok>) -> Seq<Tok> {
    if toks.len() >= 2 && toks[1] == Tok::Punct(',') {
        toks.subrange(2, toks.len() as int)
    } else {
        toks.subrange(1, toks.len() as int)
    }
}

/// `toks` are exactly braced layout entries for `es`, each followed by an
/// optional comma.
pub open spec fn entries_as(toks: Seq<Tok>, es: Seq<MetricEntry>) -> bool
    decreases toks.len(),
{
    if toks.len() == 0 {
        es.len() == 0
    } else {
        &&& es.len() > 0
        &&& toks[0] matches Tok::Group(Delim::Brace, e)
        &&& entry_as(e@, es[0])
        &&& entries_as(after_entry(toks), es.drop_first())
    }
}

/// `p` is exactly a dotted path, a comma and an index.
pub open spec fn indexed_as(p: Seq<Tok>, path: Vec<String>, i: u32) -> bool {
    &&& p.len() >= 2
    &&& p[p.len() - 2] == Tok::Punct(',')
    &&& p[p.len() - 1] == Tok::Int(i as u64)
    &&& dotted_names(p.subrange(0, p.len() - 2)) == Some(names_of(path@))
}

/// `n(p)` is exactly the observation source `o`.
pub open spec fn source_as(n: Seq<char>, p: Seq<Tok>, o: Observation) -> bool {
    match o {
        Observation::Unit(path, i) => n == "unit"@ && indexed_as(p, path, i),
        Observation::Element(path, i) => n == "element"@ && indexed_as(p, path, i),
        Observation::Scalar(path) => n == "scalar"@ && dotted_names(p) == Some(names_of(path@)),
        Observation::Tag(path) => n == "tag"@ && dotted_names(p) == Some(names_of(path@)),
        Observation::Length(path) => n == "length"@ && dotted_names(p) == Some(names_of(path@)),
        Observation::Optional(path) => n == "optional"@ && dotted_names(p) == Some(names_of(path@)),
    }
}

/// `e` is exactly one observation entry `key: K, source: kind(args)`.
pub open spec fn observation_as(e: Seq<Tok>, x: ObservationEntry) -> bool {
    &&& (e.len() == 8 || (e.len() == 9 && e[8] == Tok::Punct(',')))
    &&& is_kw(e[0], "key"@)
    &&& e[1] == Tok::Punct(':')
    &&& e[2] == Tok::Int(x.key)
    &&& e[3] == Tok::Punct(',')
    &&& is_kw(e[4], "source"@)
    &&& e[5] == Tok::Punct(':')
    &&& e[6] matches Tok::Ident(n)
    &&& e[7] matches Tok::Group(Delim::Paren, p)
    &&& source_as(n@, p@, x.source)
}

/// `toks` are exactly braced observation entries for `os`, each followed by
/// an optional comma.
pub open spec fn observations_as(toks: Seq<Tok>, os: Seq<ObservationEntry>) -> bool
    decreases toks.len(),
{
    if toks.len() == 0 {
        os.len() == 0
    } else {
        &&& os.len() > 0
        &&& toks[0] matches Tok::Group(Delim::Brace, e)
        &&& observation_as(e@, os[0])
        &&& observations_as(after_entry(toks), os.drop_first())
    }
}

/// Whether a case body carries the native marker.
pub open spec fn has_native(b: Seq<Tok>) -> bool {
    b.len() > 13 && is_kw(b[13], "native"@)
}

/// Where the value field of a case body starts.
pub open spec fn value_at(b: Seq<Tok>) -> int {
    if has_native(b) {
        17
    } else {
        13
    }
}

/// The number of tokens of a case body's value.
pub open spec fn value_len(b: Seq<Tok>) -> int {
    if b.len() > value_at(b) + 2 {
        value_extent(b[value_at(b) + 2]) as int
    } else {
        0
    }
}

/// `b` is exactly the body of case `c`: its identity, root identity, schema
/// root, optional native marker, value, layout entries and observations, in
/// that order and separated by commas, with an optional trailing comma.
pub open spec fn case_as(b: Seq<Tok>, c: Case) -> bool {
    let p = value_at(b);
    let e = value_len(b);
    let q = p + 3 + e;
    &&& b.len() >= q + 7
    &&& is_kw(b[0], "id"@)
    &&& b[1] == Tok::Punct(':')
    &&& b[2] == Tok::Int(c.id as u64)
    &&& b[3] == Tok::Punct(',')
    &&& is_kw(b[4], "root_id"@)
    &&& b[5] == Tok::Punct(':')
    &&& b[6] matches Tok::Str(s)
    &&& s@ == c.root_id@
    &&& b[7] == Tok::Punct(',')
    &&& is_kw(b[8], "root"@)
    &&& b[9] == Tok::Punct(':')
    &&& is_kw(b[10], "schema"@)
    &&& b[11] matches Tok::Ident(r)
    &&& c.root matches Root::Schema(rn)
    &&& rn@ == r@
    &&& b[12] == Tok::Punct(',')
    &&& c.native == has_native(b)
    &&& (has_native(b) ==> b[14] == Tok::Punct(':') && is_kw(b[15], "true"@) && b[16] == Tok::Punct(','))
    &&& is_kw(b[p], "value"@)
    &&& b[p + 1] == Tok::Punct(':')
    &&& e > 0
    &&& parses_as(b.subrange(p + 2, p + 2 + e), c.value)
    &&& b[p + 2 + e] == Tok::Punct(',')
    &&& is_kw(b[q], "layout"@)
    &&& b[q + 1] == Tok::Punct(':')
    &&& b[q + 2] matches Tok::Group(Delim::Bracket, l)
    &&& entries_as(l@, c.layout@)
    &&& b[q + 3] == Tok::Punct(',')
    &&& is_kw(b[q + 4], "observe"@)
    &&& b[q + 5] == Tok::Punct(':')
    &&& b[q + 6] matches Tok::Group(Delim::Bracket, o)
    &&& observations_as(o@, c.observe@)
    &&& (b.len() == q + 7 || (b.len() == q + 8 && b[q + 7] == Tok::Punct(',')))
}

/// `toks` are exactly `case { .. }` blocks for the cases `cs`, in order.
pub open spec fn cases_as(toks: Seq<Tok>, cs: Seq<Case>) -> bool
    decreases toks.len(),
{
    if toks.len() == 0 {
        cs.len() == 0
    } else {
        &&& toks.len() >= 2
        &&& cs.len() > 0
        &&& is_kw(toks[0], "case"@)
        &&& toks[1] matches Tok::Group(Delim::Brace, b)
        &&& case_as(b@, cs[0])
        &&& cases_as(toks.subrange(2, toks.len() as int), cs.drop_first())
    }
}

/// The case file is exactly one plain `conformance_cases! { .. }` invocation
/// whose tokens are the cases `cs`.
pub open spec fn case_file_as(items: Seq<CaseFileItem>, cs: Seq<Case>) -> bool {
    &&& items.len() == 1
    &&& items[0] matches CaseFileItem::Macro { name, has_attrs, has_ident, has_semi, tokens }
    &&& name matches Some(n)
    &&& n@ == "conformance_cases"@
    &&& !has_attrs
    &&& !has_ident
    &&& !has_semi
    &&& cases_as(tokens@, cs)
}

fn dotted_at(toks: &Vec<Tok>, lo: usize, hi: usize) -> (r: Option<Vec<String>>)
    requires
        lo <= hi <= toks@.len(),
    ensures
        match r {
            Some(v) => dotted_names(toks@.subrange(lo as int, hi as int)) == Some(names_of(v@)),
            None => dotted_names(toks@.subrange(lo as int, hi as int)) is None,
        },
    decreases hi - lo,
{
    let ghost s = toks@.subrange(lo as int, hi as int);
    if lo == hi {
        return None;
    }
    assert(s[0] == toks@[lo as int]);
    let n = match &toks[lo] {
        Tok::Ident(n) => n.clone(),
        _ => {
            return None;
        },
    };
    if hi - lo == 1 {
        let mut v = Vec::new();
        v.push(n);
        assert(names_of(v@) =~= seq![n@]);
        return Some(v);
    }
    assert(s[1] == toks@[lo + 1]);
    if !is_punct(&toks[lo + 1], '.') {
        return None;
    }
    assert(s.subrange(2, s.len() as int) =~= toks@.subrange(lo + 2, hi as int));
    match dotted_at(toks, lo + 2, hi) {
        Some(rest) => {
            let ghost tail = rest@;
            let mut v = rest;
            v.insert(0, n);
            assert(names_of(v@) =~= seq![n@] + names_of(tail));
            Some(v)
        },
        None => None,
    }
}

fn call_at(toks: &Vec<Tok>) -> (r: Option<Vec<String>>)
    ensures
        match r {
            Some(v) => call_names(toks@) == Some(names_of(v@)),
            None => call_names(toks@) is None,
        },
{
    let len = toks.len();
    if len == 0 {
        let v: Vec<String> = Vec::new();
        assert(names_of(v@) =~= Seq::empty());
        return Some(v);
    }
    if is_punct(&toks[len - 1], '.') {
        assert(toks@.drop_last() =~= toks@.subrange(0, len - 1));
        dotted_at(toks, 0, len - 1)
    } else {
        assert(toks@ =~= toks@.subrange(0, len as int));
        dotted_at(toks, 0, len)
    }
}

fn metric_exec(n: &String, a: &Vec<String>) -> (r: Result<Metric, CaseListError>)
    ensures
        r matches Ok(m) ==> metric_name(m) == n@ && metric_args(m) == names_of(a@),
        r is Err ==> forall|m: Metric| !(metric_name(m) == n@ && metric_args(m) == names_of(a@)),
{
    let s = n.as_str();
    assert(names_of(a@).len() == a@.len());
    if a.len() == 0 {
        assert(names_of(a@) =~= Seq::empty());
        if same_text(s, "root_size") {
            Ok(Metric::RootSize)
        } else if same_text(s, "root_align") {
            Ok(Metric::RootAlign)
        } else if same_text(s, "root_stride") {
            Ok(Metric::RootStride)
        } else if same_text(s, "tag_offset") {
            Ok(Metric::TagOffset)
        } else if same_text(s, "payload_offset") {
            Ok(Metric::PayloadOffset)
        } else if same_text(s, "payload_size") {
            Ok(Metric::PayloadSize)
        } else if same_text(s, "payload_align") {
            Ok(Metric::PayloadAlign)
        } else if same_text(s, "tag_size") {
            Ok(Metric::TagSize)
        } else if same_text(s, "tag_align") {
            Ok(Metric::TagAlign)
        } else if same_text(s, "tag_endian") {
            Ok(Metric::TagEndian)
        } else {
            Err(CaseListError::Refused)
        }
    } else if a.len() == 1 {
        let x = a[0].clone();
        assert(names_of(a@) =~= seq![x@]);
        if same_text(s, "field_offset") {
            Ok(Metric::FieldOffset(x))
        } else if same_text(s, "field_size") {
            Ok(Metric::FieldSize(x))
        } else if same_text(s, "field_align") {
            Ok(Metric::FieldAlign(x))
        } else if same_text(s, "array_length") {
            Ok(Metric::ArrayLength(x))
        } else if same_text(s, "array_stride") {
            Ok(Metric::ArrayStride(x))
        } else if same_text(s, "optional_span") {
            Ok(Metric::OptionalSpan(x))
        } else if same_text(s, "optional_is_optional") {
            Ok(Metric::OptionalIsOptional(x))
        } else if same_text(s, "optional_array_length") {
            Ok(Metric::OptionalArrayLength(x))
        } else if same_text(s, "optional_array_stride") {
            Ok(Metric::OptionalArrayStride(x))
        } else if same_text(s, "variant_raw") {
            Ok(Metric::VariantRaw(x))
        } else if same_text(s, "variant_payload_size") {
            Ok(Metric::VariantPayloadSize(x))
        } else if same_text(s, "variant_payload_align") {
            Ok(Metric::VariantPayloadAlign(x))
        } else if same_text(s, "enum_size") {
            Ok(Metric::EnumSize(x))
        } else if same_text(s, "enum_align") {
            Ok(Metric::EnumAlign(x))
        } else if same_text(s, "enum_width") {
            Ok(Metric::EnumWidth(x))
        } else if same_text(s, "enum_endian") {
            Ok(Metric::EnumEndian(x))
        } else if same_text(s, "enum_raw") {
            Ok(Metric::EnumRaw(x))
        } else if same_text(s, "string_encoding") {
            Ok(Metric::StringEncoding(x))
        } else if same_text(s, "string_capacity") {
            Ok(Metric::StringCapacity(x))
        } else if same_text(s, "string_unit_width") {
            Ok(Metric::StringUnitWidth(x))
        } else if same_text(s, "string_data_offset") {
            Ok(Metric::StringDataOffset(x))
        } else if same_text(s, "string_length_width") {
            Ok(Metric::StringLengthWidth(x))
        } else if same_text(s, "string_length_endian") {
            Ok(Metric::StringLengthEndian(x))
        } else if same_text(s, "string_length_offset") {
            Ok(Metric::StringLengthOffset(x))
        } else {
            Err(CaseListError::Refused)
        }
    } else {
        Err(CaseListError::Refused)
    }
}

fn entry_at(e: &Vec<Tok>) -> (r: Result<MetricEntry, CaseListError>)
    ensures
        r matches Ok(x) ==> entry_as(e@, x),
        r is Err ==> forall|x: MetricEntry| !entry_as(e@, x),
{
    let len = e.len();
    if !(len == 8 || (len == 9 && is_punct(&e[8], ','))) {
        return Err(CaseListError::Refused);
    }
    if !(kw(&e[0], "key") && is_punct(&e[1], ':') && is_punct(&e[3], ',') && kw(&e[4], "metric")
        && is_punct(&e[5], ':')) {
        return Err(CaseListError::Refused);
    }
    let key = match &e[2] {
        Tok::Int(k) => *k,
        _ => {
            return Err(CaseListError::Refused);
        },
    };
    let name = match &e[6] {
        Tok::Ident(s) => s,
        _ => {
            return Err(CaseListError::Refused);
        },
    };
    let args = match &e[7] {
        Tok::Group(Delim::Paren, a) => a,
        _ => {
            return Err(CaseListError::Refused);
        },
    };
    let names = match call_at(args) {
        Some(v) => v,
        None => {
            return Err(CaseListError::Refused);
        },
    };
    match metric_exec(name, &names) {
        Ok(m) => Ok(MetricEntry { key, metric: m }),
        Err(er) => Err(er),
    }
}

fn entries_at(toks: &Vec<Tok>, lo: usize) -> (r: Result<Vec<MetricEntry>, CaseListError>)
    requires
        lo <= toks@.len(),
    ensures
        r matches Ok(v) ==> entries_as(toks@.subrange(lo as int, toks@.len() as int), v@),
        r is Err ==> forall|v: Seq<MetricEntry>|
            !entries_as(toks@.subrange(lo as int, toks@.len() as int), v),
    decreases toks@.len() - lo,
{
    let ghost s = toks@.subrange(lo as int, toks@.len() as int);
    let len = toks.len();
    if lo == len {
        return Ok(Vec::new());
    }
    assert(s[0] == toks@[lo as int]);
    let x = match &toks[lo] {
        Tok::Group(Delim::Brace, e) => match entry_at(e) {
            Ok(x) => x,
            Err(er) => {
                return Err(er);
            },
        },
        _ => {
            return Err(CaseListError::Refused);
        },
    };
    let next = if lo + 1 < len && is_punct(&toks[lo + 1], ',') {
        lo + 2
    } else {
        lo + 1
    };
    assert(lo + 1 < len ==> s[1] == toks@[lo + 1]);
    assert(after_entry(s) =~= toks@.subrange(next as int, len as int));
    match entries_at(toks, next) {
        Ok(rest) => {
            let ghost tail = rest@;
            let mut v = rest;
            v.insert(0, x);
            assert(v@.drop_first() =~= tail);
            Ok(v)
        },
        Err(er) => {
            assert forall|v: Seq<MetricEntry>| !entries_as(s, v) by {
                if entries_as(s, v) {
                    assert(entries_as(after_entry(s), v.drop_first()));
                }
            }
            Err(er)
        },
    }
}

fn source_exec(n: &String, p: &Vec<Tok>) -> (r: Result<Observation, CaseListError>)
    ensures
        r matches Ok(o) ==> source_as(n@, p@, o),
        r is Err ==> forall|o: Observation| !source_as(n@, p@, o),
{
    proof {
        reveal_strlit("unit");
        reveal_strlit("element");
        reveal_strlit("scalar");
        reveal_strlit("tag");
        reveal_strlit("length");
        reveal_strlit("optional");
        assert("unit"@.len() == 4 && "element"@.len() == 7 && "scalar"@.len() == 6);
        assert("tag"@.len() == 3 && "length"@.len() == 6 && "optional"@.len() == 8);
        assert("unit"@ != "element"@ && "unit"@ != "scalar"@ && "unit"@ != "tag"@);
        assert("unit"@ != "length"@ && "unit"@ != "optional"@);
        assert("element"@ != "scalar"@ && "element"@ != "tag"@ && "element"@ != "length"@);
        assert("element"@ != "optional"@);
    }
    let s = n.as_str();
    let len = p.len();
    if same_text(s, "unit") || same_text(s, "element") {
        if len < 2 || !is_punct(&p[len - 2], ',') {
            return Err(CaseListError::Refused);
        }
        let i: u32 = match &p[len - 1] {
            Tok::Int(k) => if *k <= 0xffff_ffff {
                *k as u32
            } else {
                return Err(CaseListError::Refused);
            },
            _ => {
                return Err(CaseListError::Refused);
            },
        };
        let path = match dotted_at(p, 0, len - 2) {
            Some(v) => v,
            None => {
                return Err(CaseListError::Refused);
            },
        };
        if same_text(s, "unit") {
            Ok(Observation::Unit(path, i))
        } else {
            Ok(Observation::Element(path, i))
        }
    } else {
        assert(p@ =~= p@.subrange(0, len as int));
        let path = match dotted_at(p, 0, len) {
            Some(v) => v,
            None => {
                return Err(CaseListError::Refused);
            },
        };
        if same_text(s, "scalar") {
            Ok(Observation::Scalar(path))
        } else if same_text(s, "tag") {
            Ok(Observation::Tag(path))
        } else if same_text(s, "length") {
            Ok(Observation::Length(path))
        } else if same_text(s, "optional") {
            Ok(Observation::Optional(path))
        } else {
            Err(CaseListError::Refused)
        }
    }
}

fn observation_at(e: &Vec<Tok>) -> (r: Result<ObservationEntry, CaseListError>)
    ensures
        r matches Ok(x) ==> observation_as(e@, x),
        r is Err ==> forall|x: ObservationEntry| !observation_as(e@, x),
{
    let len = e.len();
    if !(len == 8 || (len == 9 && is_punct(&e[8], ','))) {
        return Err(CaseListError::Refused);
    }
    if !(kw(&e[0], "key") && is_punct(&e[1], ':') && is_punct(&e[3], ',') && kw(&e[4], "source")
        && is_punct(&e[5], ':')) {
        return Err(CaseListError::Refused);
    }
    let key = match &e[2] {
        Tok::Int(k) => *k,
        _ => {
            return Err(CaseListError::Refused);
        },
    };
    let name = match &e[6] {
        Tok::Ident(s) => s,
        _ => {
            return Err(CaseListError::Refused);
        },
    };
    let args = match &e[7] {
        Tok::Group(Delim::Paren, a) => a,
        _ => {
            return Err(CaseListError::Refused);
        },
    };
    match source_exec(name, args) {
        Ok(o) => Ok(ObservationEntry { key, source: o }),
        Err(er) => Err(er),
    }
}

fn observations_at(toks: &Vec<Tok>, lo: usize) -> (r: Result<Vec<ObservationEntry>, CaseListError>)
    requires
        lo <= toks@.len(),
    ensures
        r matches Ok(v) ==> observations_as(toks@.subrange(lo as int, toks@.len() as int), v@),
        r is Err ==> forall|v: Seq<ObservationEntry>|
            !observations_as(toks@.subrange(lo as int, toks@.len() as int), v),
    decreases toks@.len() - lo,
{
    let ghost s = toks@.subrange(lo as int, toks@.len() as int);
    let len = toks.len();
    if lo == len {
        return Ok(Vec::new());
    }
    assert(s[0] == toks@[lo as int]);
    let x = match &toks[lo] {
        Tok::Group(Delim::Brace, e) => match observation_at(e) {
            Ok(x) => x,
            Err(er) => {
                return Err(er);
            },
        },
        _ => {
            return Err(CaseListError::Refused);
        },
    };
    let next = if lo + 1 < len && is_punct(&toks[lo + 1], ',') {
        lo + 2
    } else {
        lo + 1
    };
    assert(lo + 1 < len ==> s[1] == toks@[lo + 1]);
    assert(after_entry(s) =~= toks@.subrange(next as int, len as int));
    match observations_at(toks, next) {
        Ok(rest) => {
            let ghost tail = rest@;
            let mut v = rest;
            v.insert(0, x);
            assert(v@.drop_first() =~= tail);
            Ok(v)
        },
        Err(er) => {
            assert forall|v: Seq<ObservationEntry>| !observations_as(s, v) by {
                if observations_as(s, v) {
                    assert(observations_as(after_entry(s), v.drop_first()));
                }
            }
            Err(er)
        },
    }
}

#[verifier::spinoff_prover]
#[verifier::rlimit(40)]
fn case_at(b: &Vec<Tok>) -> (r: Result<Case, CaseListError>)
    ensures
        r matches Ok(c) ==> case_as(b@, c),
        r is Err ==> forall|c: Case| !case_as(b@, c),
{
    let len = b.len();
    if len < 14 {
        return Err(CaseListError::Refused);
    }
    if !(kw(&b[0], "id") && is_punct(&b[1], ':') && is_punct(&b[3], ',') && kw(&b[4], "root_id")
        && is_punct(&b[5], ':') && is_punct(&b[7], ',') && kw(&b[8], "root") && is_punct(&b[9], ':')
        && kw(&b[10], "schema") && is_punct(&b[12], ',')) {
        return Err(CaseListError::Refused);
    }
    let id: u32 = match &b[2] {
        Tok::Int(k) => if *k <= 0xffff_ffff {
            *k as u32
        } else {
            return Err(CaseListError::Refused);
        },
        _ => {
            return Err(CaseListError::Refused);
        },
    };
    let root_id = match &b[6] {
        Tok::Str(s) => s.clone(),
        _ => {
            return Err(CaseListError::Refused);
        },
    };
    let root_name = match &b[11] {
        Tok::Ident(s) => s.clone(),
        _ => {
            return Err(CaseListError::Refused);
        },
    };
    let native = kw(&b[13], "native");
    let p: usize = if native {
        17
    } else {
        13
    };
    assert(p == value_at(b@));
    if native {
        if len < 17 || !(is_punct(&b[14], ':') && kw(&b[15], "true") && is_punct(&b[16], ',')) {
            return Err(CaseListError::Refused);
        }
    }
    if len <= p + 2 {
        return Err(CaseListError::Refused);
    }
    if !(kw(&b[p], "value") && is_punct(&b[p + 1], ':')) {
        return Err(CaseListError::Refused);
    }
    let e = extent(&b[p + 2]);
    assert(e == value_len(b@));
    if e == 0 || len < p + 3 + e + 7 {
        return Err(CaseListError::Refused);
    }
    let value = match parse_at(b.as_slice(), p + 2, p + 2 + e) {
        Ok(v) => v,
        Err(_) => {
            return Err(CaseListError::Refused);
        },
    };
    if !is_punct(&b[p + 2 + e], ',') {
        return Err(CaseListError::Refused);
    }
    let q = p + 3 + e;
    if !(kw(&b[q], "layout") && is_punct(&b[q + 1], ':') && is_punct(&b[q + 3], ',') && kw(
        &b[q + 4],
        "observe",
    ) && is_punct(&b[q + 5], ':')) {
        return Err(CaseListError::Refused);
    }
    if !(len == q + 7 || (len == q + 8 && is_punct(&b[q + 7], ','))) {
        return Err(CaseListError::Refused);
    }
    let layout = match &b[q + 2] {
        Tok::Group(Delim::Bracket, l) => {
            assert(l@.subrange(0, l@.len() as int) =~= l@);
            match entries_at(l, 0) {
                Ok(v) => v,
                Err(er) => {
                    return Err(er);
                },
            }
        },
        _ => {
            return Err(CaseListError::Refused);
        },
    };
    let observe = match &b[q + 6] {
        Tok::Group(Delim::Bracket, o) => {
            assert(o@.subrange(0, o@.len() as int) =~= o@);
            match observations_at(o, 0) {
                Ok(v) => v,
                Err(er) => {
                    return Err(er);
                },
            }
        },
        _ => {
            return Err(CaseListError::Refused);
        },
    };
    Ok(Case { id, root_id, root: Root::Schema(root_name), native, value, layout, observe })
}

fn cases_at(toks: &Vec<Tok>, lo: usize) -> (r: Result<Vec<Case>, CaseListError>)
    requires
        lo <= toks@.len(),
    ensures
        r matches Ok(v) ==> cases_as(toks@.subrange(lo as int, toks@.len() as int), v@),
        r is Err ==> forall|v: Seq<Case>| !cases_as(toks@.subrange(lo as int, toks@.len() as int), v),
    decreases toks@.len() - lo,
{
    let ghost s = toks@.subrange(lo as int, toks@.len() as int);
    let len = toks.len();
    if lo == len {
        return Ok(Vec::new());
    }
    if len - lo < 2 || !kw(&toks[lo], "case") {
        return Err(CaseListError::Refused);
    }
    assert(s[0] == toks@[lo as int]);
    assert(s[1] == toks@[lo + 1]);
    let c = match &toks[lo + 1] {
        Tok::Group(Delim::Brace, b) => match case_at(b) {
            Ok(c) => c,
            Err(er) => {
                return Err(er);
            },
        },
        _ => {
            return Err(CaseListError::Refused);
        },
    };
    assert(s.subrange(2, s.len() as int) =~= toks@.subrange(lo + 2, len as int));
    match cases_at(toks, lo + 2) {
        Ok(rest) => {
            let ghost tail = rest@;
            let mut v = rest;
            v.insert(0, c);
            assert(v@.drop_first() =~= tail);
            Ok(v)
        },
        Err(er) => {
            assert forall|v: Seq<Case>| !cases_as(s, v) by {
                if cases_as(s, v) {
                    assert(cases_as(s.subrange(2, s.len() as int), v.drop_first()));
                }
            }
            Err(er)
        },
    }
}

/// Reads the cases of a case file; refused exactly when the file is not one
/// plain `conformance_cases!` invocation whose tokens the case-list grammar
/// accepts.
pub fn read_cases(items: &Vec<CaseFileItem>) -> (r: Result<Vec<Case>, CaseListError>)
    ensures
        r matches Ok(cs) ==> case_file_as(items@, cs@),
        r is Err ==> forall|cs: Seq<Case>| !case_file_as(items@, cs),
{
    if items.len() != 1 {
        return Err(CaseListError::Refused);
    }
    match &items[0] {
        CaseFileItem::Macro { name, has_attrs, has_ident, has_semi, tokens } => {
            let named = match name {
                Some(n) => same_text(n.as_str(), "conformance_cases"),
                None => false,
            };
            if !named || *has_attrs || *has_ident || *has_semi {
                return Err(CaseListError::Refused);
            }
            assert(tokens@.subrange(0, tokens@.len() as int) =~= tokens@);
            cases_at(tokens, 0)
        },
        CaseFileItem::Other => Err(CaseListError::Refused),
    }
}

} // verus!

use zero_schema::case_list::{read_cases, CaseFileItem, CaseListError};
use zero_schema::cases::{Delim, Tok};
use zero_schema::conformance::{Metric, Observation, Root, Value};

fn ident(s: &str) -> Tok {
    Tok::Ident(s.to_string())
}

fn punct(c: char) -> Tok {
    Tok::Punct(c)
}

fn group(d: Delim, toks: Vec<Tok>) -> Tok {
    Tok::Group(d, toks)
}

fn field(name: &str, value: Vec<Tok>) -> Vec<Tok> {
    let mut out = vec![ident(name), punct(':')];
    out.extend(value);
    out.push(punct(','));
    out
}

fn metric(key: u64, name: &str, args: Vec<Tok>) -> Tok {
    group(
        Delim::Brace,
        vec![
            ident("key"),
            punct(':'),
            Tok::Int(key),
            punct(','),
            ident("metric"),
            punct(':'),
            ident(name),
            group(Delim::Paren, args),
        ],
    )
}

fn source(key: u64, kind: &str, args: Vec<Tok>) -> Tok {
    group(
        Delim::Brace,
        vec![
            ident("key"),
            punct(':'),
            Tok::Int(key),
            punct(','),
            ident("source"),
            punct(':'),
            ident(kind),
            group(Delim::Paren, args),
            punct(','),
        ],
    )
}

fn value_bits(n: u64) -> Vec<Tok> {
    vec![
        ident("record"),
        group(Delim::Brace, vec![ident("x"), punct(':'), ident("bits"), group(Delim::Paren, vec![Tok::Int(n)])]),
    ]
}

fn body(id: u64, native: Option<&str>, layout: Vec<Tok>, observe: Vec<Tok>) -> Vec<Tok> {
    let mut b = Vec::new();
    b.extend(field("id", vec![Tok::Int(id)]));
    b.extend(field("root_id", vec![Tok::Str("point".to_string())]));
    b.extend(field("root", vec![ident("schema"), ident("Point")]));
    if let Some(marker) = native {
        b.extend(field("native", vec![ident(marker)]));
    }
    b.extend(field("value", value_bits(7)));
    b.extend(field("layout", vec![group(Delim::Bracket, layout)]));
    b.extend(vec![ident("observe"), punct(':'), group(Delim::Bracket, observe)]);
    b
}

fn file(bodies: Vec<Vec<Tok>>) -> Vec<CaseFileItem> {
    let mut tokens = Vec::new();
    for b in bodies {
        tokens.push(ident("case"));
        tokens.push(group(Delim::Brace, b));
    }
    vec![CaseFileItem::Macro {
        name: Some("conformance_cases".to_string()),
        has_attrs: false,
        has_ident: false,
        has_semi: false,
        tokens,
    }]
}

fn standard_layout() -> Vec<Tok> {
    vec![
        metric(1, "root_size", vec![]),
        punct(','),
        metric(2, "field_offset", vec![ident("x")]),
    ]
}

fn standard_observe() -> Vec<Tok> {
    vec![source(3, "scalar", vec![ident("x")])]
}

#[test]
fn a_case_list_is_read_in_order() {
    let items = file(vec![
        body(1001, None, standard_layout(), standard_observe()),
        body(1002, Some("true"), vec![], vec![source(4, "unit", vec![ident("a"), punct('.'), ident("b"), punct(','), Tok::Int(2)])]),
    ]);
    let cases = read_cases(&items).unwrap();
    assert_eq!(cases.len(), 2);
    let c = &cases[0];
    assert_eq!(c.id, 1001);
    assert_eq!(c.root_id, "point");
    assert!(matches!(c.root, Root::Schema(ref n) if n == "Point"));
    assert!(!c.native);
    match &c.value {
        Value::Record(fields) => {
            assert_eq!(fields.len(), 1);
            assert_eq!(fields[0].0, "x");
            assert!(matches!(fields[0].1, Value::Bits(7)));
        }
        other => panic!("unexpected {other:?}"),
    }
    assert_eq!(c.layout.len(), 2);
    assert_eq!(c.layout[0].key, 1);
    assert!(matches!(c.layout[0].metric, Metric::RootSize));
    assert!(matches!(c.layout[1].metric, Metric::FieldOffset(ref f) if f == "x"));
    assert_eq!(c.observe.len(), 1);
    assert!(matches!(c.observe[0].source, Observation::Scalar(ref p) if p == &vec!["x".to_string()]));
    let d = &cases[1];
    assert_eq!(d.id, 1002);
    assert!(d.native);
    assert!(d.layout.is_empty());
    match &d.observe[0].source {
        Observation::Unit(p, i) => {
            assert_eq!(p, &vec!["a".to_string(), "b".to_string()]);
            assert_eq!(*i, 2);
        }
        other => panic!("unexpected {other:?}"),
    }
}

#[test]
fn metric_arguments_may_end_with_a_dot() {
    let layout = vec![metric(1, "field_size", vec![ident("x"), punct('.')])];
    let cases = read_cases(&file(vec![body(1001, None, layout, vec![])])).unwrap();
    assert!(matches!(cases[0].layout[0].metric, Metric::FieldSize(ref f) if f == "x"));
}

#[test]
fn malformed_case_lists_are_refused() {
    let refused = Err::<(), _>(CaseListError::Refused);
    let check = |items: Vec<CaseFileItem>| read_cases(&items).map(|_| ());
    // A native marker that is not true.
    assert_eq!(check(file(vec![body(1001, Some("false"), vec![], vec![])])), refused);
    // An unknown metric, and a metric with the wrong arity.
    assert_eq!(check(file(vec![body(1001, None, vec![metric(1, "root_depth", vec![])], vec![])])), refused);
    assert_eq!(check(file(vec![body(1001, None, vec![metric(1, "root_size", vec![ident("x")])], vec![])])), refused);
    assert_eq!(check(file(vec![body(1001, None, vec![metric(1, "field_size", vec![])], vec![])])), refused);
    // An unknown observation, and an index beyond 32 bits.
    assert_eq!(check(file(vec![body(1001, None, vec![], vec![source(1, "depth", vec![ident("x")])])])), refused);
    assert_eq!(
        check(file(vec![body(1001, None, vec![], vec![source(1, "element", vec![ident("x"), punct(','), Tok::Int(1 << 32)])])])),
        refused
    );
    // A case identity beyond 32 bits.
    assert_eq!(check(file(vec![body(1 << 32, None, vec![], vec![])])), refused);
    // Two entries separated by two commas.
    assert_eq!(
        check(file(vec![body(1001, None, vec![metric(1, "root_size", vec![]), punct(','), punct(','), metric(2, "root_align", vec![])], vec![])])),
        refused
    );
    // No invocation, two invocations, another item, a trailing semicolon.
    assert_eq!(check(vec![]), refused);
    let mut two = file(vec![]);
    two.extend(file(vec![]));
    assert_eq!(check(two), refused);
    assert_eq!(check(vec![CaseFileItem::Other]), refused);
    let semi = vec![CaseFileItem::Macro {
        name: Some("conformance_cases".to_string()),
        has_attrs: false,
        has_ident: false,
        has_semi: true,
        tokens: vec![],
    }];
    assert_eq!(check(semi), refused);
}

#[test]
fn an_empty_invocation_holds_no_cases() {
    assert_eq!(read_cases(&file(vec![])).unwrap().len(), 0);
}

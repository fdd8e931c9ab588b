use zero_schema::cases::{parse_value, Delim, Tok, ValueSyntaxError};
use zero_schema::conformance::Value;

fn ident(s: &str) -> Tok {
    Tok::Ident(s.to_string())
}

fn integer(n: u64) -> Tok {
    Tok::Int(n)
}

fn punct(c: char) -> Tok {
    Tok::Punct(c)
}

fn group(d: Delim, toks: Vec<Tok>) -> Tok {
    Tok::Group(d, toks)
}

fn call(keyword: &str, inner: Vec<Tok>) -> Vec<Tok> {
    vec![ident(keyword), group(Delim::Paren, inner)]
}

fn path(a: &str, b: &str) -> Vec<Tok> {
    vec![ident(a), punct(':'), punct(':'), ident(b)]
}

fn entry(name: &str, value: Vec<Tok>) -> Vec<Tok> {
    let mut out = vec![ident(name), punct(':')];
    out.extend(value);
    out
}

fn shown(r: Result<Value, ValueSyntaxError>) -> String {
    format!("{r:?}")
}

#[test]
fn case_values_read_every_form() {
    let mut record = Vec::new();
    record.extend(entry("a", call("bits", vec![integer(7)])));
    record.push(punct(','));
    record.extend(entry("c", call("variant", path("Color", "Green"))));
    record.push(punct(','));
    record.extend(entry("o", vec![ident("none")]));
    record.push(punct(','));
    record.extend(entry("s", call("some", call("boolean", vec![ident("true")]))));
    record.push(punct(','));
    record.extend(entry(
        "xs",
        call("bytes", vec![group(Delim::Bracket, vec![integer(1), punct(','), integer(2), punct(',')])]),
    ));
    record.push(punct(','));
    let mut elements = call("bits", vec![integer(1)]);
    elements.push(punct(','));
    elements.extend(call("units", vec![group(Delim::Bracket, vec![integer(0x1234)])]));
    record.extend(entry("arr", call("array", vec![group(Delim::Bracket, elements)])));
    let toks = vec![ident("record"), group(Delim::Brace, record)];

    let expected = Value::Record(vec![
        ("a".to_string(), Value::Bits(7)),
        ("c".to_string(), Value::Variant { ty: "Color".to_string(), variant: "Green".to_string() }),
        ("o".to_string(), Value::Absent),
        ("s".to_string(), Value::Present(Box::new(Value::Boolean(true)))),
        ("xs".to_string(), Value::Bytes(vec![1, 2])),
        (
            "arr".to_string(),
            Value::Array(vec![Value::Bits(1), Value::Units(vec![0x1234])]),
        ),
    ]);
    assert_eq!(shown(parse_value(&toks)), shown(Ok(expected)));
}

#[test]
fn union_values_name_their_type_and_variant() {
    let toks = vec![
        ident("union"),
        group(Delim::Paren, path("Payload", "Small")),
        group(Delim::Brace, entry("x", call("bits", vec![integer(3)]))),
    ];
    let expected = Value::Union {
        ty: "Payload".to_string(),
        variant: "Small".to_string(),
        fields: vec![("x".to_string(), Value::Bits(3))],
    };
    assert_eq!(shown(parse_value(&toks)), shown(Ok(expected)));
}

#[test]
fn malformed_case_values_are_refused() {
    let refused = |toks: Vec<Tok>| parse_value(&toks).is_err();
    assert!(refused(call("bits", vec![integer(1), punct(','), integer(2)])));
    assert!(refused(call("bytes", vec![group(Delim::Bracket, vec![integer(256)])])));
    assert!(refused(call("units", vec![group(Delim::Bracket, vec![punct(',')])])));
    assert!(refused(vec![ident("none"), ident("none")]));
    assert!(refused(vec![ident("unknown")]));
    assert!(refused(vec![]));
    assert!(refused(call("variant", vec![ident("Color")])));
    assert!(refused(vec![
        ident("record"),
        group(Delim::Brace, vec![ident("a"), ident("bits"), group(Delim::Paren, vec![integer(1)])]),
    ]));
    assert!(refused(vec![ident("some"), group(Delim::Bracket, vec![ident("none")])]));
}

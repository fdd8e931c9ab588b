use zero_schema::attributes::{attrs, Attr, AttrArgs};
use zero_schema::cases::{Delim, Tok};
use zero_schema::conformance::{Endian, IntWidth};

fn ident(s: &str) -> Tok {
    Tok::Ident(s.to_string())
}

fn attr(path: &str, args: AttrArgs) -> Attr {
    Attr { path: vec![path.to_string()], args }
}

#[test]
fn zero_and_repr_options_are_read() {
    let list = vec![
        attr("doc", AttrArgs::Assigned),
        attr("derive", AttrArgs::List(vec![ident("Clone"), Tok::Punct(','), ident("Debug"), Tok::Punct(',')])),
        attr(
            "repr",
            AttrArgs::List(vec![
                ident("C"),
                Tok::Punct(','),
                ident("align"),
                Tok::Group(Delim::Paren, vec![Tok::Int(8)]),
                Tok::Punct(','),
                ident("u16"),
            ]),
        ),
        attr(
            "zero",
            AttrArgs::List(vec![
                ident("endian"),
                Tok::Punct('='),
                Tok::Str("big".to_string()),
                Tok::Punct(','),
                ident("capacity"),
                Tok::Punct('='),
                Tok::Int(16),
                Tok::Punct(','),
                ident("len_type"),
                Tok::Punct('='),
                ident("u8"),
                Tok::Punct(','),
                ident("tag"),
                Tok::Punct('='),
                ident("Kind"),
                Tok::Punct(':'),
                Tok::Punct(':'),
                ident("Small"),
                Tok::Punct(','),
                ident("tag_field"),
                Tok::Punct('='),
                ident("kind"),
            ]),
        ),
        attr("zero", AttrArgs::Word),
    ];
    let (z, repr) = attrs(&list, false).unwrap();
    assert_eq!(repr, Some(IntWidth::U16));
    assert_eq!(z.align, Some(8));
    assert_eq!(z.endian, Some(Endian::Big));
    assert_eq!(z.capacity, Some(16));
    assert_eq!(z.len, Some(IntWidth::U8));
    assert_eq!(z.tag, Some(vec!["Kind".to_string(), "Small".to_string()]));
    assert_eq!(z.tag_field.as_deref(), Some("kind"));
}

#[test]
fn the_naming_allowance_is_admitted_only_where_asked() {
    let list = vec![attr("allow", AttrArgs::List(vec![ident("non_camel_case_types")]))];
    assert!(attrs(&list, true).is_ok());
    assert!(attrs(&list, false).is_err());
}

#[test]
fn unsupported_attributes_are_refused() {
    let refused = |a: Attr| attrs(&[a], true).is_err();
    assert!(refused(attr("derive", AttrArgs::List(vec![ident("Hash")]))));
    assert!(refused(attr("repr", AttrArgs::List(vec![ident("u64")]))));
    assert!(refused(attr(
        "repr",
        AttrArgs::List(vec![ident("align"), Tok::Group(Delim::Paren, vec![Tok::Int(3)])])
    )));
    assert!(refused(attr(
        "zero",
        AttrArgs::List(vec![ident("align"), Tok::Punct('='), Tok::Int(0)])
    )));
    assert!(refused(attr(
        "zero",
        AttrArgs::List(vec![ident("endian"), Tok::Punct('='), Tok::Str("middle".to_string())])
    )));
    assert!(refused(attr(
        "zero",
        AttrArgs::List(vec![ident("len_type"), Tok::Punct('='), ident("u64")])
    )));
    assert!(refused(attr("zero", AttrArgs::Assigned)));
    assert!(refused(attr("inline", AttrArgs::Word)));
    assert!(refused(Attr { path: vec!["zero".to_string(), "x".to_string()], args: AttrArgs::Word }));
}

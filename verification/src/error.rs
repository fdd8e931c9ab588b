//! Layout errors, error classification, and structured error paths.

use vstd::prelude::*;
use vstd::string::StringExecFns;

verus! {

/// An error in the size, alignment, or bounds of a wire buffer.
#[derive(Clone, Copy, Debug, PartialEq, Eq, Structural)]
#[non_exhaustive]
pub enum LayoutError {
    IncorrectSize { expected: usize, actual: usize },
    InsufficientBytes { required: usize, actual: usize },
    Misaligned { required: usize, address: usize },
    OffsetOverflow,
}

/// Decimal rendering of a natural number, most significant digit first.
pub open spec fn decimal_text(n: nat) -> Seq<char>
    decreases n,
{
    if n < 10 {
        seq![digit_char((n % 10) as u8)]
    } else {
        decimal_text(n / 10).push(digit_char((n % 10) as u8))
    }
}

/// Lower-case hexadecimal rendering of a natural number without a prefix.
pub open spec fn hex_text(n: nat) -> Seq<char>
    decreases n,
{
    if n < 16 {
        seq![hex_digit_char((n % 16) as u8)]
    } else {
        hex_text(n / 16).push(hex_digit_char((n % 16) as u8))
    }
}

pub open spec fn digit_char(d: u8) -> char {
    (('0' as u8) + d) as char
}

pub open spec fn hex_digit_char(d: u8) -> char {
    if d < 10 {
        (('0' as u8) + d) as char
    } else {
        (('a' as u8) + (d - 10)) as char
    }
}

/// The one-character text of a hexadecimal digit.
fn digit_str(d: u8) -> (r: &'static str)
    requires
        d < 16,
    ensures
        r@ == seq![hex_digit_char(d)],
        d < 10 ==> r@ == seq![digit_char(d)],
{
    match d {
        0 => {
            proof {
                reveal_strlit("0");
            }
            "0"
        },
        1 => {
            proof {
                reveal_strlit("1");
            }
            "1"
        },
        2 => {
            proof {
                reveal_strlit("2");
            }
            "2"
        },
        3 => {
            proof {
                reveal_strlit("3");
            }
            "3"
        },
        4 => {
            proof {
                reveal_strlit("4");
            }
            "4"
        },
        5 => {
            proof {
                reveal_strlit("5");
            }
            "5"
        },
        6 => {
            proof {
                reveal_strlit("6");
            }
            "6"
        },
        7 => {
            proof {
                reveal_strlit("7");
            }
            "7"
        },
        8 => {
            proof {
                reveal_strlit("8");
            }
            "8"
        },
        9 => {
            proof {
                reveal_strlit("9");
            }
            "9"
        },
        10 => {
            proof {
                reveal_strlit("a");
            }
            "a"
        },
        11 => {
            proof {
                reveal_strlit("b");
            }
            "b"
        },
        12 => {
            proof {
                reveal_strlit("c");
            }
            "c"
        },
        13 => {
            proof {
                reveal_strlit("d");
            }
            "d"
        },
        14 => {
            proof {
                reveal_strlit("e");
            }
            "e"
        },
        15 => {
            proof {
                reveal_strlit("f");
            }
            "f"
        },
        _ => {
            proof {
                reveal_strlit("f");
            }
            "f"
        },
    }
}

/// Renders `value` in decimal, most significant digit first.
pub(crate) fn decimal_string(value: u64) -> (r: String)
    ensures
        r@ == decimal_text(value as nat),
    decreases value,
{
    if value < 10 {
        String::from_str(digit_str(value as u8))
    } else {
        let mut text = decimal_string(value / 10);
        text.append(digit_str((value % 10) as u8));
        text
    }
}

/// Renders `value` in lower-case hexadecimal without a prefix.
fn hex_string(value: usize) -> (r: String)
    ensures
        r@ == hex_text(value as nat),
    decreases value,
{
    if value < 16 {
        String::from_str(digit_str(value as u8))
    } else {
        let mut text = hex_string(value / 16);
        text.append(digit_str((value % 16) as u8));
        text
    }
}

/// The text of a layout error message.
pub open spec fn layout_error_text(error: LayoutError) -> Seq<char> {
    match error {
        LayoutError::IncorrectSize { expected, actual } =>
            "incorrect size: expected "@ + decimal_text(expected as nat) + " bytes, got "@
                + decimal_text(actual as nat),
        LayoutError::InsufficientBytes { required, actual } =>
            "insufficient bytes: required "@ + decimal_text(required as nat) + ", got "@
                + decimal_text(actual as nat),
        LayoutError::Misaligned { required, address } =>
            "misaligned address 0x"@ + hex_text(address as nat) + ": required alignment "@
                + decimal_text(required as nat),
        LayoutError::OffsetOverflow => "byte-range offset overflow"@,
    }
}

impl LayoutError {
    /// Returns the stable human-readable message of this error.
    pub fn message(&self) -> (r: String)
        ensures
            r@ == layout_error_text(*self),
    {
        match *self {
            LayoutError::IncorrectSize { expected, actual } => {
                let mut text = String::from_str("incorrect size: expected ");
                text.append(decimal_string(expected as u64).as_str());
                text.append(" bytes, got ");
                text.append(decimal_string(actual as u64).as_str());
                text
            },
            LayoutError::InsufficientBytes { required, actual } => {
                let mut text = String::from_str("insufficient bytes: required ");
                text.append(decimal_string(required as u64).as_str());
                text.append(", got ");
                text.append(decimal_string(actual as u64).as_str());
                text
            },
            LayoutError::Misaligned { required, address } => {
                let mut text = String::from_str("misaligned address 0x");
                text.append(hex_string(address).as_str());
                text.append(": required alignment ");
                text.append(decimal_string(required as u64).as_str());
                text
            },
            LayoutError::OffsetOverflow => String::from_str("byte-range offset overflow"),
        }
    }
}

/// A stable, allocation-free classification of a schema error.
#[derive(Clone, Copy, Debug, PartialEq, Eq, Structural)]
#[non_exhaustive]
pub enum ErrorKind {
    Layout,
    InvalidBool,
    UnknownEnumValue,
    LengthOutOfBounds,
    InvalidUtf8,
    MissingNul,
    NonZeroTail,
    NonZeroPadding,
    UnknownUnionTag,
    CapacityExceeded,
    TagMismatch,
    RangeViolation,
    MustEqualViolation,
    CustomValidation,
}

/// One component of a structured schema error path.
#[derive(Clone, Copy, Debug, PartialEq, Eq)]
#[non_exhaustive]
pub enum ErrorPathSegment {
    Field(&'static str),
    Variant(&'static str),
}

/// The name carried by one path segment.
pub open spec fn segment_name(segment: ErrorPathSegment) -> Seq<char> {
    match segment {
        ErrorPathSegment::Field(name) => name@,
        ErrorPathSegment::Variant(name) => name@,
    }
}

/// The dotted rendering of `segments[0..n)`.
pub open spec fn path_suffix(segments: Seq<ErrorPathSegment>, n: int) -> Seq<char>
    decreases n,
{
    if n <= 0 {
        Seq::empty()
    } else {
        path_suffix(segments, n - 1) + "."@ + segment_name(segments[n - 1])
    }
}

/// The schema name followed by every path segment, each introduced by a dot.
pub open spec fn error_path_text(schema: Seq<char>, segments: Seq<ErrorPathSegment>) -> Seq<char> {
    schema + path_suffix(segments, segments.len() as int)
}

/// Common inspection interface implemented by all generated schema errors.
///
/// A generated error is a chain: each link names its schema and, optionally,
/// the field or variant through which it reached the next link.
pub trait SchemaError {
    fn kind(&self) -> ErrorKind;

    fn schema(&self) -> &'static str;

    fn segment(&self) -> Option<ErrorPathSegment>;

    fn validation_code(&self) -> Option<u32> {
        None
    }
}

/// Returns only the schema and structured path portion of an error chain.
///
/// `schema` is the outermost schema name and `segments` lists the present
/// segments from the outermost link to the deepest one.
pub fn error_path_string(schema: &str, segments: &[ErrorPathSegment]) -> (r: String)
    ensures
        r@ == error_path_text(schema@, segments@),
{
    let mut path = String::from_str(schema);
    let mut i: usize = 0;
    while i < segments.len()
        invariant
            i <= segments@.len(),
            path@ == schema@ + path_suffix(segments@, i as int),
        decreases segments@.len() - i,
    {
        let name: &str = match segments[i] {
            ErrorPathSegment::Field(name) => name,
            ErrorPathSegment::Variant(name) => name,
        };
        path.append(".");
        path.append(name);
        proof {
            assert(schema@ + path_suffix(segments@, i as int) + "."@ + name@
                =~= schema@ + path_suffix(segments@, i + 1));
        }
        i += 1;
    }
    path
}

/// Formats a complete schema error: its path, then the deepest leaf message.
pub fn format_schema_error(schema: &str, segments: &[ErrorPathSegment], leaf: &str) -> (r: String)
    ensures
        r@ == error_path_text(schema@, segments@) + ": "@ + leaf@,
{
    let mut text = error_path_string(schema, segments);
    text.append(": ");
    text.append(leaf);
    text
}

/// One link of a schema error chain, outermost first: the link's schema, the
/// field or variant through which it reached the next link, and the leaf
/// message it would report if it were the deepest link.
#[derive(Clone, Copy, Debug)]
pub struct ErrorLink {
    pub schema: &'static str,
    pub segment: Option<ErrorPathSegment>,
    pub leaf: &'static str,
}

/// The present segments of `links`, outermost first.
pub open spec fn chain_segments(links: Seq<ErrorLink>) -> Seq<ErrorPathSegment>
    decreases links.len(),
{
    if links.len() == 0 {
        Seq::empty()
    } else {
        chain_segments(links.drop_last()) + match links.last().segment {
            Some(segment) => seq![segment],
            None => Seq::empty(),
        }
    }
}

/// Walks an error chain once, outermost link first, collecting its present
/// segments.
pub fn chain_path_segments(links: &[ErrorLink]) -> (r: Vec<ErrorPathSegment>)
    ensures
        r@ == chain_segments(links@),
{
    let mut segments: Vec<ErrorPathSegment> = Vec::new();
    let mut i: usize = 0;
    while i < links.len()
        invariant
            i <= links@.len(),
            segments@ == chain_segments(links@.subrange(0, i as int)),
        decreases links@.len() - i,
    {
        proof {
            assert(links@.subrange(0, i + 1).drop_last() =~= links@.subrange(0, i as int));
        }
        match links[i].segment {
            Some(segment) => segments.push(segment),
            None => {},
        }
        proof {
            assert(segments@ =~= chain_segments(links@.subrange(0, i + 1)));
        }
        i += 1;
    }
    assert(links@.subrange(0, links@.len() as int) =~= links@);
    segments
}

/// The schema and structured path of an error chain: the outermost schema
/// name, then every present segment of the chain.
pub fn chain_path_string(links: &[ErrorLink]) -> (r: String)
    requires
        links@.len() > 0,
    ensures
        r@ == error_path_text(links@[0].schema@, chain_segments(links@)),
{
    let segments = chain_path_segments(links);
    error_path_string(links[0].schema, segments.as_slice())
}

/// Formats an error chain: its path, walked once, then the leaf message of
/// the deepest link.
pub fn format_error_chain(links: &[ErrorLink]) -> (r: String)
    requires
        links@.len() > 0,
    ensures
        r@ == error_path_text(links@[0].schema@, chain_segments(links@)) + ": "@
            + links@.last().leaf@,
{
    let segments = chain_path_segments(links);
    format_schema_error(links[0].schema, segments.as_slice(), links[links.len() - 1].leaf)
}

} // verus!

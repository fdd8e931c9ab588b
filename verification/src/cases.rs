//! The value syntax of conformance cases, read from a token tree: each value
//! is a keyword followed by a fixed number of delimited groups.

use vstd::prelude::*;

use crate::conformance::{same_text, Value};

verus! {

#[derive(Clone, Copy, Debug, PartialEq, Eq, Structural)]
pub enum Delim {
    Paren,
    Bracket,
    Brace,
}

/// One token tree of case syntax.
#[derive(Debug)]
pub enum Tok {
    Ident(String),
    Int(u64),
    Str(String),
    Punct(char),
    Group(Delim, Vec<Tok>),
    Other,
}

/// The tokens hold no value of the case syntax.
#[derive(Clone, Copy, Debug, PartialEq, Eq, Structural)]
pub enum ValueSyntaxError {
    Malformed,
}

pub open spec fn is_kw(t: Tok, k: Seq<char>) -> bool {
    t matches Tok::Ident(n) && n@ == k
}

/// The number of tokens a value starting with token `t` spans: the keyword
/// and its groups; zero for a token that starts no value.
pub open spec fn value_extent(t: Tok) -> nat {
    if is_kw(t, "none"@) {
        1
    } else if is_kw(t, "some"@) || is_kw(t, "record"@) {
        2
    } else if is_kw(t, "union"@) {
        3
    } else if is_kw(t, "bits"@) || is_kw(t, "boolean"@) || is_kw(t, "variant"@) || is_kw(t, "array"@)
        || is_kw(t, "bytes"@) || is_kw(t, "units"@) {
        2
    } else {
        0
    }
}

/// A two-segment path `a::b`.
pub open spec fn path2(p: Seq<Tok>) -> Option<(Seq<char>, Seq<char>)> {
    if p.len() == 4 && p[0] is Ident && p[1] == Tok::Punct(':') && p[2] == Tok::Punct(':')
        && p[3] is Ident {
        Some((p[0]->Ident_0@, p[3]->Ident_0@))
    } else {
        None
    }
}

/// `toks` are exactly the syntax of value `v`.
pub open spec fn parses_as(toks: Seq<Tok>, v: Value) -> bool
    decreases toks, 0nat,
{
    if toks.len() == 0 {
        false
    } else if is_kw(toks[0], "none"@) {
        toks.len() == 1 && v is Absent
    } else if is_kw(toks[0], "some"@) {
        &&& toks.len() == 2
        &&& toks[1] matches Tok::Group(Delim::Paren, inner)
        &&& v matches Value::Present(x)
        &&& parses_as(inner@, *x)
    } else if is_kw(toks[0], "record"@) {
        &&& toks.len() == 2
        &&& toks[1] matches Tok::Group(Delim::Brace, inner)
        &&& v matches Value::Record(values)
        &&& named_as(inner@, values@)
    } else if is_kw(toks[0], "union"@) {
        &&& toks.len() == 3
        &&& toks[1] matches Tok::Group(Delim::Paren, p)
        &&& path2(p@) is Some
        &&& toks[2] matches Tok::Group(Delim::Brace, inner)
        &&& v matches Value::Union { ty, variant, fields }
        &&& path2(p@) == Some((ty@, variant@))
        &&& named_as(inner@, fields@)
    } else if is_kw(toks[0], "bits"@) {
        &&& toks.len() == 2
        &&& toks[1] matches Tok::Group(Delim::Paren, p)
        &&& p@.len() == 1
        &&& p@[0] matches Tok::Int(n)
        &&& v == Value::Bits(n)
    } else if is_kw(toks[0], "boolean"@) {
        &&& toks.len() == 2
        &&& toks[1] matches Tok::Group(Delim::Paren, p)
        &&& p@.len() == 1
        &&& v matches Value::Boolean(b)
        &&& if b {
            is_kw(p@[0], "true"@)
        } else {
            is_kw(p@[0], "false"@)
        }
    } else if is_kw(toks[0], "variant"@) {
        &&& toks.len() == 2
        &&& toks[1] matches Tok::Group(Delim::Paren, p)
        &&& v matches Value::Variant { ty, variant }
        &&& path2(p@) == Some((ty@, variant@))
    } else if is_kw(toks[0], "array"@) {
        &&& toks.len() == 2
        &&& toks[1] matches Tok::Group(Delim::Paren, p)
        &&& p@.len() == 1
        &&& p@[0] matches Tok::Group(Delim::Bracket, items)
        &&& v matches Value::Array(values)
        &&& list_as(items@, values@)
    } else if is_kw(toks[0], "bytes"@) {
        &&& toks.len() == 2
        &&& toks[1] matches Tok::Group(Delim::Paren, p)
        &&& p@.len() == 1
        &&& p@[0] matches Tok::Group(Delim::Bracket, items)
        &&& v matches Value::Bytes(xs)
        &&& ints_as(items@, xs@.map_values(|x: u8| x as nat), 0xff)
    } else if is_kw(toks[0], "units"@) {
        &&& toks.len() == 2
        &&& toks[1] matches Tok::Group(Delim::Paren, p)
        &&& p@.len() == 1
        &&& p@[0] matches Tok::Group(Delim::Bracket, items)
        &&& v matches Value::Units(us)
        &&& ints_as(items@, us@.map_values(|x: u16| x as nat), 0xffff)
    } else {
        false
    }
}

/// `toks` are exactly `name: value` entries for `values`, separated by
/// commas, with an optional trailing comma.
pub open spec fn named_as(toks: Seq<Tok>, values: Seq<(String, Value)>) -> bool
    decreases toks, 1nat,
{
    if toks.len() == 0 {
        values.len() == 0
    } else {
        let e = value_extent(toks[2]) as int;
        &&& values.len() > 0
        &&& toks.len() >= 3
        &&& toks[0] matches Tok::Ident(n)
        &&& n@ == values[0].0@
        &&& toks[1] == Tok::Punct(':')
        &&& e > 0
        &&& 2 + e <= toks.len()
        &&& parses_as(toks.subrange(2, 2 + e), values[0].1)
        &&& if 2 + e == toks.len() {
            values.len() == 1
        } else {
            &&& toks[2 + e] == Tok::Punct(',')
            &&& named_as(toks.subrange(3 + e, toks.len() as int), values.drop_first())
        }
    }
}

/// `toks` are exactly the values `values`, separated by commas, with an
/// optional trailing comma.
pub open spec fn list_as(toks: Seq<Tok>, values: Seq<Value>) -> bool
    decreases toks, 1nat,
{
    if toks.len() == 0 {
        values.len() == 0
    } else {
        let e = value_extent(toks[0]) as int;
        &&& values.len() > 0
        &&& e > 0
        &&& e <= toks.len()
        &&& if e == toks.len() {
            values.len() == 1 && parses_as(toks, values[0])
        } else {
            &&& parses_as(toks.subrange(0, e), values[0])
            &&& toks[e] == Tok::Punct(',')
            &&& list_as(toks.subrange(e + 1, toks.len() as int), values.drop_first())
        }
    }
}

/// `toks` are exactly integer literals no larger than `max` for `xs`,
/// separated by commas, with an optional trailing comma.
pub open spec fn ints_as(toks: Seq<Tok>, xs: Seq<nat>, max: nat) -> bool
    decreases toks.len(),
{
    if toks.len() == 0 {
        xs.len() == 0
    } else {
        &&& xs.len() > 0
        &&& toks[0] matches Tok::Int(n)
        &&& n <= max
        &&& n == xs[0]
        &&& if toks.len() == 1 {
            xs.len() == 1
        } else {
            &&& toks[1] == Tok::Punct(',')
            &&& ints_as(toks.subrange(2, toks.len() as int), xs.drop_first(), max)
        }
    }
}

pub(crate) fn kw(t: &Tok, k: &str) -> (r: bool)
    ensures
        r == is_kw(*t, k@),
{
    match t {
        Tok::Ident(n) => same_text(n.as_str(), k),
        _ => false,
    }
}

pub(crate) fn is_punct(t: &Tok, c: char) -> (r: bool)
    ensures
        r == (*t == Tok::Punct(c)),
{
    match t {
        Tok::Punct(d) => *d == c,
        _ => false,
    }
}

pub(crate) fn extent(t: &Tok) -> (r: usize)
    ensures
        r == value_extent(*t),
{
    if kw(t, "none") {
        1
    } else if kw(t, "some") || kw(t, "record") {
        2
    } else if kw(t, "union") {
        3
    } else if kw(t, "bits") || kw(t, "boolean") || kw(t, "variant") || kw(t, "array") || kw(t, "bytes")
        || kw(t, "units") {
        2
    } else {
        0
    }
}

fn path2_exec(p: &Vec<Tok>) -> (r: Option<(String, String)>)
    ensures
        match r {
            Some((a, b)) => path2(p@) == Some((a@, b@)),
            None => path2(p@) is None,
        },
{
    if p.len() == 4 && is_punct(&p[1], ':') && is_punct(&p[2], ':') {
        match (&p[0], &p[3]) {
            (Tok::Ident(a), Tok::Ident(b)) => Some((a.clone(), b.clone())),
            _ => None,
        }
    } else {
        None
    }
}

/// The integer literals of `toks[lo..hi]`.
fn ints_at(toks: &[Tok], lo: usize, hi: usize, max: u64) -> (r: Result<Vec<u64>, ValueSyntaxError>)
    requires
        lo <= hi <= toks@.len(),
    ensures
        r matches Ok(xs) ==> ints_as(
            toks@.subrange(lo as int, hi as int),
            xs@.map_values(|x: u64| x as nat),
            max as nat,
        ) && forall|i: int| 0 <= i < xs@.len() ==> xs@[i] <= max,
        r is Err ==> forall|xs: Seq<nat>| !ints_as(toks@.subrange(lo as int, hi as int), xs, max as nat),
    decreases hi - lo,
{
    let ghost s = toks@.subrange(lo as int, hi as int);
    if lo == hi {
        return Ok(Vec::new());
    }
    let n = match &toks[lo] {
        Tok::Int(n) => *n,
        _ => {
            return Err(ValueSyntaxError::Malformed);
        },
    };
    if n > max {
        return Err(ValueSyntaxError::Malformed);
    }
    if hi - lo == 1 {
        let mut v = Vec::new();
        v.push(n);
        assert(v@.map_values(|x: u64| x as nat) =~= seq![n as nat]);
        return Ok(v);
    }
    if !is_punct(&toks[lo + 1], ',') {
        return Err(ValueSyntaxError::Malformed);
    }
    assert(s.subrange(2, s.len() as int) =~= toks@.subrange(lo + 2, hi as int));
    match ints_at(toks, lo + 2, hi, max) {
        Ok(rest) => {
            let ghost tail = rest@;
            let mut v = rest;
            v.insert(0, n);
            assert(v@.map_values(|x: u64| x as nat).drop_first() =~= tail.map_values(|x: u64| x as nat));
            Ok(v)
        },
        Err(e) => {
            assert forall|xs: Seq<nat>| !ints_as(s, xs, max as nat) by {
                if ints_as(s, xs, max as nat) {
                    assert(ints_as(toks@.subrange(lo + 2, hi as int), xs.drop_first(), max as nat));
                }
            }
            Err(e)
        },
    }
}

/// The value whose syntax is exactly `toks[lo..hi]`.
#[verifier::spinoff_prover]
pub(crate) fn parse_at(toks: &[Tok], lo: usize, hi: usize) -> (r: Result<Value, ValueSyntaxError>)
    requires
        lo <= hi <= toks@.len(),
    ensures
        r matches Ok(v) ==> parses_as(toks@.subrange(lo as int, hi as int), v),
        r is Err ==> forall|v: Value| !parses_as(toks@.subrange(lo as int, hi as int), v),
    decreases toks@, 0nat, hi - lo,
{
    let ghost s = toks@.subrange(lo as int, hi as int);
    let n = hi - lo;
    if n == 0 {
        return Err(ValueSyntaxError::Malformed);
    }
    let t0 = &toks[lo];
    assert(s[0] == toks@[lo as int]);
    if kw(t0, "none") {
        if n == 1 {
            return Ok(Value::Absent);
        }
        return Err(ValueSyntaxError::Malformed);
    }
    if n >= 2 {
        assert(s[1] == toks@[lo + 1]);
    }
    if kw(t0, "some") {
        if n != 2 {
            return Err(ValueSyntaxError::Malformed);
        }
        match &toks[lo + 1] {
            Tok::Group(Delim::Paren, inner) => {
                assert(inner@.subrange(0, inner@.len() as int) =~= inner@);
                match parse_at(inner.as_slice(), 0, inner.len()) {
                    Ok(x) => Ok(Value::Present(Box::new(x))),
                    Err(e) => {
                        assert forall|v: Value| !parses_as(s, v) by {
                            if parses_as(s, v) {
                                assert(parses_as(inner@.subrange(0, inner@.len() as int), *v->Present_0));
                            }
                        }
                        Err(e)
                    },
                }
            },
            _ => Err(ValueSyntaxError::Malformed),
        }
    } else if kw(t0, "record") {
        if n != 2 {
            return Err(ValueSyntaxError::Malformed);
        }
        match &toks[lo + 1] {
            Tok::Group(Delim::Brace, inner) => {
                assert(inner@.subrange(0, inner@.len() as int) =~= inner@);
                match named_at(inner.as_slice(), 0, inner.len()) {
                    Ok(values) => Ok(Value::Record(values)),
                    Err(e) => {
                        assert forall|v: Value| !parses_as(s, v) by {
                            if parses_as(s, v) {
                                assert(named_as(inner@.subrange(0, inner@.len() as int), v->Record_0@));
                            }
                        }
                        Err(e)
                    },
                }
            },
            _ => Err(ValueSyntaxError::Malformed),
        }
    } else if kw(t0, "union") {
        if n != 3 {
            return Err(ValueSyntaxError::Malformed);
        }
        assert(s[2] == toks@[lo + 2]);
        let p = match &toks[lo + 1] {
            Tok::Group(Delim::Paren, p) => p,
            _ => {
                return Err(ValueSyntaxError::Malformed);
            },
        };
        let (ty, variant) = match path2_exec(p) {
            Some(path) => path,
            None => {
                return Err(ValueSyntaxError::Malformed);
            },
        };
        match &toks[lo + 2] {
            Tok::Group(Delim::Brace, inner) => {
                assert(inner@.subrange(0, inner@.len() as int) =~= inner@);
                match named_at(inner.as_slice(), 0, inner.len()) {
                    Ok(fields) => Ok(Value::Union { ty, variant, fields }),
                    Err(e) => {
                        assert forall|v: Value| !parses_as(s, v) by {
                            if parses_as(s, v) {
                                assert(named_as(
                                    inner@.subrange(0, inner@.len() as int),
                                    v->Union_fields@,
                                ));
                            }
                        }
                        Err(e)
                    },
                }
            },
            _ => Err(ValueSyntaxError::Malformed),
        }
    } else if kw(t0, "bits") {
        if n != 2 {
            return Err(ValueSyntaxError::Malformed);
        }
        match &toks[lo + 1] {
            Tok::Group(Delim::Paren, p) => {
                if p.len() != 1 {
                    return Err(ValueSyntaxError::Malformed);
                }
                match &p[0] {
                    Tok::Int(x) => Ok(Value::Bits(*x)),
                    _ => Err(ValueSyntaxError::Malformed),
                }
            },
            _ => Err(ValueSyntaxError::Malformed),
        }
    } else if kw(t0, "boolean") {
        if n != 2 {
            return Err(ValueSyntaxError::Malformed);
        }
        match &toks[lo + 1] {
            Tok::Group(Delim::Paren, p) => {
                if p.len() != 1 {
                    return Err(ValueSyntaxError::Malformed);
                }
                if kw(&p[0], "true") {
                    Ok(Value::Boolean(true))
                } else if kw(&p[0], "false") {
                    Ok(Value::Boolean(false))
                } else {
                    Err(ValueSyntaxError::Malformed)
                }
            },
            _ => Err(ValueSyntaxError::Malformed),
        }
    } else if kw(t0, "variant") {
        if n != 2 {
            return Err(ValueSyntaxError::Malformed);
        }
        match &toks[lo + 1] {
            Tok::Group(Delim::Paren, p) => match path2_exec(p) {
                Some((ty, variant)) => Ok(Value::Variant { ty, variant }),
                None => Err(ValueSyntaxError::Malformed),
            },
            _ => Err(ValueSyntaxError::Malformed),
        }
    } else if kw(t0, "array") {
        if n != 2 {
            return Err(ValueSyntaxError::Malformed);
        }
        match &toks[lo + 1] {
            Tok::Group(Delim::Paren, p) => {
                if p.len() != 1 {
                    return Err(ValueSyntaxError::Malformed);
                }
                match &p[0] {
                    Tok::Group(Delim::Bracket, items) => {
                        assert(items@.subrange(0, items@.len() as int) =~= items@);
                        match list_at(items.as_slice(), 0, items.len()) {
                            Ok(values) => Ok(Value::Array(values)),
                            Err(e) => {
                                assert forall|v: Value| !parses_as(s, v) by {
                                    if parses_as(s, v) {
                                        assert(list_as(
                                            items@.subrange(0, items@.len() as int),
                                            v->Array_0@,
                                        ));
                                    }
                                }
                                Err(e)
                            },
                        }
                    },
                    _ => Err(ValueSyntaxError::Malformed),
                }
            },
            _ => Err(ValueSyntaxError::Malformed),
        }
    } else if kw(t0, "bytes") || kw(t0, "units") {
        if n != 2 {
            return Err(ValueSyntaxError::Malformed);
        }
        let bytes = kw(t0, "bytes");
        match &toks[lo + 1] {
            Tok::Group(Delim::Paren, p) => {
                if p.len() != 1 {
                    return Err(ValueSyntaxError::Malformed);
                }
                match &p[0] {
                    Tok::Group(Delim::Bracket, items) => {
                        assert(items@.subrange(0, items@.len() as int) =~= items@);
                        let max: u64 = if bytes {
                            0xff
                        } else {
                            0xffff
                        };
                        match ints_at(items.as_slice(), 0, items.len(), max) {
                            Ok(xs) => {
                                if bytes {
                                    Ok(Value::Bytes(narrow_bytes(&xs)))
                                } else {
                                    Ok(Value::Units(narrow_units(&xs)))
                                }
                            },
                            Err(e) => {
                                assert forall|v: Value| !parses_as(s, v) by {
                                    if parses_as(s, v) {
                                        if bytes {
                                            assert(ints_as(
                                                items@.subrange(0, items@.len() as int),
                                                v->Bytes_0@.map_values(|x: u8| x as nat),
                                                max as nat,
                                            ));
                                        } else {
                                            assert(ints_as(
                                                items@.subrange(0, items@.len() as int),
                                                v->Units_0@.map_values(|x: u16| x as nat),
                                                max as nat,
                                            ));
                                        }
                                    }
                                }
                                Err(e)
                            },
                        }
                    },
                    _ => Err(ValueSyntaxError::Malformed),
                }
            },
            _ => Err(ValueSyntaxError::Malformed),
        }
    } else {
        Err(ValueSyntaxError::Malformed)
    }
}

fn narrow_bytes(xs: &Vec<u64>) -> (r: Vec<u8>)
    requires
        forall|i: int| 0 <= i < xs@.len() ==> xs@[i] <= 0xff,
    ensures
        r@.map_values(|x: u8| x as nat) == xs@.map_values(|x: u64| x as nat),
{
    let mut r: Vec<u8> = Vec::new();
    let mut i: usize = 0;
    while i < xs.len()
        invariant
            i <= xs@.len(),
            r@.len() == i,
            forall|j: int| 0 <= j < xs@.len() ==> xs@[j] <= 0xff,
            forall|j: int| 0 <= j < i ==> r@[j] as nat == xs@[j] as nat,
        decreases xs@.len() - i,
    {
        r.push(xs[i] as u8);
        i += 1;
    }
    assert(r@.map_values(|x: u8| x as nat) =~= xs@.map_values(|x: u64| x as nat));
    r
}

fn narrow_units(xs: &Vec<u64>) -> (r: Vec<u16>)
    requires
        forall|i: int| 0 <= i < xs@.len() ==> xs@[i] <= 0xffff,
    ensures
        r@.map_values(|x: u16| x as nat) == xs@.map_values(|x: u64| x as nat),
{
    let mut r: Vec<u16> = Vec::new();
    let mut i: usize = 0;
    while i < xs.len()
        invariant
            i <= xs@.len(),
            r@.len() == i,
            forall|j: int| 0 <= j < xs@.len() ==> xs@[j] <= 0xffff,
            forall|j: int| 0 <= j < i ==> r@[j] as nat == xs@[j] as nat,
        decreases xs@.len() - i,
    {
        r.push(xs[i] as u16);
        i += 1;
    }
    assert(r@.map_values(|x: u16| x as nat) =~= xs@.map_values(|x: u64| x as nat));
    r
}

/// The named values whose syntax is exactly `toks[lo..hi]`.
fn named_at(toks: &[Tok], lo: usize, hi: usize) -> (r: Result<Vec<(String, Value)>, ValueSyntaxError>)
    requires
        lo <= hi <= toks@.len(),
    ensures
        r matches Ok(values) ==> named_as(toks@.subrange(lo as int, hi as int), values@),
        r is Err ==> forall|values: Seq<(String, Value)>|
            !named_as(toks@.subrange(lo as int, hi as int), values),
    decreases toks@, 1nat, hi - lo,
{
    let ghost s = toks@.subrange(lo as int, hi as int);
    if lo == hi {
        return Ok(Vec::new());
    }
    if hi - lo < 3 {
        return Err(ValueSyntaxError::Malformed);
    }
    assert(s[0] == toks@[lo as int] && s[1] == toks@[lo + 1] && s[2] == toks@[lo + 2]);
    let name = match &toks[lo] {
        Tok::Ident(n) => n.clone(),
        _ => {
            return Err(ValueSyntaxError::Malformed);
        },
    };
    if !is_punct(&toks[lo + 1], ':') {
        return Err(ValueSyntaxError::Malformed);
    }
    let e = extent(&toks[lo + 2]);
    if e == 0 || e > hi - lo - 2 {
        return Err(ValueSyntaxError::Malformed);
    }
    assert(s.subrange(2, 2 + e) =~= toks@.subrange(lo + 2, lo + 2 + e));
    let v = match parse_at(toks, lo + 2, lo + 2 + e) {
        Ok(v) => v,
        Err(err) => {
            assert forall|values: Seq<(String, Value)>| !named_as(s, values) by {
                if named_as(s, values) {
                    assert(parses_as(toks@.subrange(lo + 2, lo + 2 + e), values[0].1));
                }
            }
            return Err(err);
        },
    };
    if lo + 2 + e == hi {
        let mut values = Vec::new();
        values.push((name, v));
        return Ok(values);
    }
    assert(s[2 + e] == toks@[lo + 2 + e]);
    if !is_punct(&toks[lo + 2 + e], ',') {
        return Err(ValueSyntaxError::Malformed);
    }
    assert(s.subrange(3 + e, s.len() as int) =~= toks@.subrange(lo + 3 + e, hi as int));
    match named_at(toks, lo + 3 + e, hi) {
        Ok(rest) => {
            let ghost tail = rest@;
            let mut values = rest;
            values.insert(0, (name, v));
            assert(values@.drop_first() =~= tail);
            Ok(values)
        },
        Err(err) => {
            assert forall|values: Seq<(String, Value)>| !named_as(s, values) by {
                if named_as(s, values) {
                    assert(named_as(toks@.subrange(lo + 3 + e, hi as int), values.drop_first()));
                }
            }
            Err(err)
        },
    }
}

/// The values whose syntax is exactly `toks[lo..hi]`.
fn list_at(toks: &[Tok], lo: usize, hi: usize) -> (r: Result<Vec<Value>, ValueSyntaxError>)
    requires
        lo <= hi <= toks@.len(),
    ensures
        r matches Ok(values) ==> list_as(toks@.subrange(lo as int, hi as int), values@),
        r is Err ==> forall|values: Seq<Value>| !list_as(toks@.subrange(lo as int, hi as int), values),
    decreases toks@, 1nat, hi - lo,
{
    let ghost s = toks@.subrange(lo as int, hi as int);
    if lo == hi {
        return Ok(Vec::new());
    }
    assert(s[0] == toks@[lo as int]);
    let e = extent(&toks[lo]);
    if e == 0 || e > hi - lo {
        return Err(ValueSyntaxError::Malformed);
    }
    if e == hi - lo {
        return match parse_at(toks, lo, hi) {
            Ok(v) => {
                let mut values = Vec::new();
                values.push(v);
                Ok(values)
            },
            Err(err) => {
                assert forall|values: Seq<Value>| !list_as(s, values) by {
                    if list_as(s, values) {
                        assert(parses_as(s, values[0]));
                    }
                }
                Err(err)
            },
        };
    }
    assert(s.subrange(0, e as int) =~= toks@.subrange(lo as int, lo + e));
    let v = match parse_at(toks, lo, lo + e) {
        Ok(v) => v,
        Err(err) => {
            assert forall|values: Seq<Value>| !list_as(s, values) by {
                if list_as(s, values) {
                    assert(parses_as(toks@.subrange(lo as int, lo + e), values[0]));
                }
            }
            return Err(err);
        },
    };
    assert(s[e as int] == toks@[lo + e]);
    if !is_punct(&toks[lo + e], ',') {
        return Err(ValueSyntaxError::Malformed);
    }
    assert(s.subrange(e + 1, s.len() as int) =~= toks@.subrange(lo + e + 1, hi as int));
    match list_at(toks, lo + e + 1, hi) {
        Ok(rest) => {
            let ghost tail = rest@;
            let mut values = rest;
            values.insert(0, v);
            assert(values@.drop_first() =~= tail);
            Ok(values)
        },
        Err(err) => {
            assert forall|values: Seq<Value>| !list_as(s, values) by {
                if list_as(s, values) {
                    assert(list_as(toks@.subrange(lo + e + 1, hi as int), values.drop_first()));
                }
            }
            Err(err)
        },
    }
}

/// Reads the value whose syntax is exactly `toks`; refused exactly when the
/// tokens are the syntax of no value.
pub fn parse_value(toks: &[Tok]) -> (r: Result<Value, ValueSyntaxError>)
    ensures
        r matches Ok(v) ==> parses_as(toks@, v),
        r is Err ==> forall|v: Value| !parses_as(toks@, v),
{
    assert(toks@.subrange(0, toks@.len() as int) =~= toks@);
    parse_at(toks, 0, toks.len())
}

} // verus!

//! The attribute grammar of schema declarations: documentation, the accepted
//! derives, a naming allowance, `repr` and the `zero` options.

use vstd::prelude::*;

use crate::cases::{is_kw, is_punct, kw, Delim, Tok};
use crate::conformance::{same_text, Endian, IntWidth};

verus! {

/// What follows an attribute's path.
#[derive(Debug)]
pub enum AttrArgs {
    /// `#[path]`
    Word,
    /// `#[path(tokens)]`
    List(Vec<Tok>),
    /// `#[path = ...]`
    Assigned,
}

/// One attribute: the segments of its path and its arguments.
#[derive(Debug)]
pub struct Attr {
    pub path: Vec<String>,
    pub args: AttrArgs,
}

/// The `zero` options of a declaration.
#[derive(Debug)]
pub struct ZeroOptions {
    pub endian: Option<Endian>,
    pub align: Option<u32>,
    pub capacity: Option<u32>,
    pub len: Option<IntWidth>,
    /// The segments of the tag path.
    pub tag: Option<Vec<String>>,
    pub tag_field: Option<String>,
}

/// An attribute list that breaks the attribute grammar.
#[derive(Clone, Copy, Debug, PartialEq, Eq, Structural)]
pub enum AttrError {
    Unsupported,
}

/// Options as values: byte order, alignment, capacity, length width, tag
/// path segments and tag field.
pub type OptionsView = (
    Option<Endian>,
    Option<u32>,
    Option<u32>,
    Option<IntWidth>,
    Option<Seq<Seq<char>>>,
    Option<Seq<char>>,
);

pub open spec fn opt_segments(o: Option<Vec<String>>) -> Option<Seq<Seq<char>>> {
    match o {
        Some(v) => Some(v@.map_values(|x: String| x@)),
        None => None,
    }
}

pub open spec fn opt_text(o: Option<String>) -> Option<Seq<char>> {
    match o {
        Some(s) => Some(s@),
        None => None,
    }
}

impl ZeroOptions {
    pub open spec fn view_options(&self) -> OptionsView {
        (self.endian, self.align, self.capacity, self.len, opt_segments(self.tag), opt_text(self.tag_field))
    }
}

pub open spec fn no_options() -> OptionsView {
    (None, None, None, None, None, None)
}

/// A nonzero power of two.
pub open spec fn is_pow2(n: nat) -> bool
    decreases n,
{
    if n == 0 {
        false
    } else if n == 1 {
        true
    } else if n % 2 != 0 {
        false
    } else {
        is_pow2(n / 2)
    }
}

/// An alignment literal: a nonzero power of two that fits in 32 bits.
pub open spec fn alignment_ok(n: u64) -> bool {
    n <= 0xffff_ffff && is_pow2(n as nat)
}

pub open spec fn is_path(path: Seq<String>, k: Seq<char>) -> bool {
    path.len() == 1 && path[0]@ == k
}

/// A derive list: accepted single names separated by commas, with an
/// optional trailing comma.
pub open spec fn derives_ok(toks: Seq<Tok>) -> bool
    decreases toks.len(),
{
    if toks.len() == 0 {
        true
    } else {
        &&& (is_kw(toks[0], "Clone"@) || is_kw(toks[0], "Copy"@) || is_kw(toks[0], "Debug"@) || is_kw(
            toks[0],
            "PartialEq"@,
        ) || is_kw(toks[0], "Eq"@))
        &&& (toks.len() == 1 || (toks[1] == Tok::Punct(',') && derives_ok(
            toks.subrange(2, toks.len() as int),
        )))
    }
}

/// One `repr` item at the front of `toks`: the updated alignment and width
/// and the number of tokens it spans.
pub open spec fn repr_item(toks: Seq<Tok>, align: Option<u32>, repr: Option<IntWidth>) -> Option<
    (Option<u32>, Option<IntWidth>, int),
> {
    if toks.len() == 0 {
        None
    } else if is_kw(toks[0], "u8"@) {
        Some((align, Some(IntWidth::U8), 1))
    } else if is_kw(toks[0], "u16"@) {
        Some((align, Some(IntWidth::U16), 1))
    } else if is_kw(toks[0], "u32"@) {
        Some((align, Some(IntWidth::U32), 1))
    } else if is_kw(toks[0], "C"@) {
        Some((align, repr, 1))
    } else if is_kw(toks[0], "align"@) && toks.len() >= 2 && toks[1] is Group {
        match toks[1] {
            Tok::Group(Delim::Paren, p) => if p@.len() == 1 && p@[0] is Int && alignment_ok(
                p@[0]->Int_0,
            ) {
                Some((Some(p@[0]->Int_0 as u32), repr, 2))
            } else {
                None
            },
            _ => None,
        }
    } else {
        None
    }
}

/// The alignment and width set by the `repr` items of `toks`.
pub open spec fn repr_items(toks: Seq<Tok>, align: Option<u32>, repr: Option<IntWidth>) -> Option<
    (Option<u32>, Option<IntWidth>),
>
    decreases toks.len(),
{
    if toks.len() == 0 {
        Some((align, repr))
    } else {
        match repr_item(toks, align, repr) {
            Some((a, r, used)) => if used == toks.len() {
                Some((a, r))
            } else if used < toks.len() && toks[used] == Tok::Punct(',') {
                repr_items(toks.subrange(used + 1, toks.len() as int), a, r)
            } else {
                None
            },
            None => None,
        }
    }
}

/// The segments of a path `a::b::c` at the front of `toks` and the number
/// of tokens it spans.
pub open spec fn path_from(toks: Seq<Tok>) -> Option<(Seq<Seq<char>>, int)>
    decreases toks.len(),
{
    if toks.len() == 0 || !(toks[0] is Ident) {
        None
    } else if toks.len() >= 3 && toks[1] == Tok::Punct(':') && toks[2] == Tok::Punct(':') {
        match path_from(toks.subrange(3, toks.len() as int)) {
            Some((rest, used)) => Some((seq![toks[0]->Ident_0@] + rest, used + 3)),
            None => None,
        }
    } else {
        Some((seq![toks[0]->Ident_0@], 1))
    }
}

/// The value of option `key` at the front of `rest`: the updated options and
/// the number of tokens the value spans.
pub open spec fn zero_value(key: Seq<char>, rest: Seq<Tok>, st: OptionsView) -> Option<(OptionsView, int)> {
    if rest.len() == 0 {
        None
    } else if key == "endian"@ {
        match rest[0] {
            Tok::Str(s) => if s@ == "native"@ {
                Some(((Some(Endian::Native), st.1, st.2, st.3, st.4, st.5), 1))
            } else if s@ == "little"@ {
                Some(((Some(Endian::Little), st.1, st.2, st.3, st.4, st.5), 1))
            } else if s@ == "big"@ {
                Some(((Some(Endian::Big), st.1, st.2, st.3, st.4, st.5), 1))
            } else {
                None
            },
            _ => None,
        }
    } else if key == "capacity"@ {
        match rest[0] {
            Tok::Int(n) => if n <= 0xffff_ffff {
                Some(((st.0, st.1, Some(n as u32), st.3, st.4, st.5), 1))
            } else {
                None
            },
            _ => None,
        }
    } else if key == "align"@ {
        match rest[0] {
            Tok::Int(n) => if alignment_ok(n) {
                Some(((st.0, Some(n as u32), st.2, st.3, st.4, st.5), 1))
            } else {
                None
            },
            _ => None,
        }
    } else if key == "len_type"@ {
        match path_from(rest) {
            Some((segs, used)) => if segs == seq!["u8"@] {
                Some(((st.0, st.1, st.2, Some(IntWidth::U8), st.4, st.5), used))
            } else if segs == seq!["u16"@] {
                Some(((st.0, st.1, st.2, Some(IntWidth::U16), st.4, st.5), used))
            } else if segs == seq!["u32"@] {
                Some(((st.0, st.1, st.2, Some(IntWidth::U32), st.4, st.5), used))
            } else {
                None
            },
            None => None,
        }
    } else if key == "tag"@ {
        match path_from(rest) {
            Some((segs, used)) => Some(((st.0, st.1, st.2, st.3, Some(segs), st.5), used)),
            None => None,
        }
    } else if key == "tag_field"@ {
        match rest[0] {
            Tok::Ident(n) => Some(((st.0, st.1, st.2, st.3, st.4, Some(n@)), 1)),
            _ => None,
        }
    } else {
        None
    }
}

/// The options set by the `key = value` entries of `toks`, separated by
/// commas, with an optional trailing comma.
pub open spec fn zero_entries(toks: Seq<Tok>, st: OptionsView) -> Option<OptionsView>
    decreases toks.len(),
{
    if toks.len() == 0 {
        Some(st)
    } else if toks.len() >= 3 && toks[0] is Ident && toks[1] == Tok::Punct('=') {
        match zero_value(toks[0]->Ident_0@, toks.subrange(2, toks.len() as int), st) {
            Some((next, used)) => {
                let end = 2 + used;
                if used < 1 {
                    None
                } else if end == toks.len() {
                    Some(next)
                } else if end < toks.len() && toks[end] == Tok::Punct(',') {
                    zero_entries(toks.subrange(end + 1, toks.len() as int), next)
                } else {
                    None
                }
            },
            None => None,
        }
    } else {
        None
    }
}

/// The options and representation width after one more attribute.
pub open spec fn attr_step(a: Attr, allow_naming: bool, st: (OptionsView, Option<IntWidth>)) -> Option<
    (OptionsView, Option<IntWidth>),
> {
    if is_path(a.path@, "doc"@) {
        Some(st)
    } else if is_path(a.path@, "derive"@) {
        match a.args {
            AttrArgs::List(toks) => if derives_ok(toks@) {
                Some(st)
            } else {
                None
            },
            _ => None,
        }
    } else if is_path(a.path@, "allow"@) {
        match a.args {
            AttrArgs::List(toks) => if allow_naming && toks@.len() == 1 && is_kw(
                toks@[0],
                "non_camel_case_types"@,
            ) {
                Some(st)
            } else {
                None
            },
            _ => None,
        }
    } else if is_path(a.path@, "repr"@) {
        match a.args {
            AttrArgs::List(toks) => match repr_items(toks@, st.0.1, st.1) {
                Some((align, repr)) => Some(((st.0.0, align, st.0.2, st.0.3, st.0.4, st.0.5), repr)),
                None => None,
            },
            _ => None,
        }
    } else if is_path(a.path@, "zero"@) {
        match a.args {
            AttrArgs::Word => Some(st),
            AttrArgs::List(toks) => match zero_entries(toks@, st.0) {
                Some(options) => Some((options, st.1)),
                None => None,
            },
            AttrArgs::Assigned => None,
        }
    } else {
        None
    }
}

/// The options and representation width after the first `k` attributes.
pub open spec fn attrs_upto(attrs: Seq<Attr>, allow_naming: bool, k: int) -> Option<
    (OptionsView, Option<IntWidth>),
>
    decreases k,
{
    if k <= 0 {
        Some((no_options(), None))
    } else {
        match attrs_upto(attrs, allow_naming, k - 1) {
            Some(st) => attr_step(attrs[k - 1], allow_naming, st),
            None => None,
        }
    }
}

fn pow2(n: u64) -> (r: bool)
    ensures
        r == is_pow2(n as nat),
    decreases n,
{
    if n == 0 {
        false
    } else if n == 1 {
        true
    } else if n % 2 != 0 {
        false
    } else {
        pow2(n / 2)
    }
}

fn derives_check(toks: &[Tok], lo: usize, hi: usize) -> (r: bool)
    requires
        lo <= hi <= toks@.len(),
    ensures
        r == derives_ok(toks@.subrange(lo as int, hi as int)),
    decreases hi - lo,
{
    let ghost s = toks@.subrange(lo as int, hi as int);
    if lo == hi {
        return true;
    }
    assert(s[0] == toks@[lo as int]);
    let t = &toks[lo];
    if !(kw(t, "Clone") || kw(t, "Copy") || kw(t, "Debug") || kw(t, "PartialEq") || kw(t, "Eq")) {
        return false;
    }
    if hi - lo == 1 {
        return true;
    }
    assert(s[1] == toks@[lo + 1]);
    assert(s.subrange(2, s.len() as int) =~= toks@.subrange(lo + 2, hi as int));
    is_punct(&toks[lo + 1], ',') && derives_check(toks, lo + 2, hi)
}

fn repr_item_exec(toks: &[Tok], lo: usize, hi: usize, align: Option<u32>, repr: Option<IntWidth>) -> (r:
    Option<(Option<u32>, Option<IntWidth>, usize)>)
    requires
        lo < hi <= toks@.len(),
    ensures
        match r {
            Some((a, w, used)) => repr_item(toks@.subrange(lo as int, hi as int), align, repr) == Some(
                (a, w, used as int),
            ),
            None => repr_item(toks@.subrange(lo as int, hi as int), align, repr) is None,
        },
{
    let ghost s = toks@.subrange(lo as int, hi as int);
    assert(s[0] == toks@[lo as int]);
    let t = &toks[lo];
    if kw(t, "u8") {
        Some((align, Some(IntWidth::U8), 1))
    } else if kw(t, "u16") {
        Some((align, Some(IntWidth::U16), 1))
    } else if kw(t, "u32") {
        Some((align, Some(IntWidth::U32), 1))
    } else if kw(t, "C") {
        Some((align, repr, 1))
    } else if kw(t, "align") && hi - lo >= 2 && matches!(toks[lo + 1], Tok::Group(..)) {
        assert(s[1] == toks@[lo + 1]);
        match &toks[lo + 1] {
            Tok::Group(Delim::Paren, p) => {
                if p.len() == 1 {
                    match &p[0] {
                        Tok::Int(n) => {
                            if *n <= 0xffff_ffff && pow2(*n) {
                                Some((Some(*n as u32), repr, 2))
                            } else {
                                None
                            }
                        },
                        _ => None,
                    }
                } else {
                    None
                }
            },
            _ => None,
        }
    } else {
        None
    }
}

fn repr_exec(toks: &[Tok], lo: usize, hi: usize, align: Option<u32>, repr: Option<IntWidth>) -> (r:
    Option<(Option<u32>, Option<IntWidth>)>)
    requires
        lo <= hi <= toks@.len(),
    ensures
        r == repr_items(toks@.subrange(lo as int, hi as int), align, repr),
    decreases hi - lo,
{
    let ghost s = toks@.subrange(lo as int, hi as int);
    if lo == hi {
        return Some((align, repr));
    }
    match repr_item_exec(toks, lo, hi, align, repr) {
        Some((a, w, used)) => {
            if used == hi - lo {
                Some((a, w))
            } else if used < hi - lo && is_punct(&toks[lo + used], ',') {
                assert(s[used as int] == toks@[lo + used]);
                assert(s.subrange(used + 1, s.len() as int) =~= toks@.subrange(lo + used + 1, hi as int));
                repr_exec(toks, lo + used + 1, hi, a, w)
            } else {
                proof {
                    if used < hi - lo {
                        assert(s[used as int] == toks@[lo + used]);
                    }
                }
                None
            }
        },
        None => None,
    }
}

fn path_exec(toks: &[Tok], lo: usize, hi: usize) -> (r: Option<(Vec<String>, usize)>)
    requires
        lo <= hi <= toks@.len(),
    ensures
        match r {
            Some((segs, used)) => path_from(toks@.subrange(lo as int, hi as int)) == Some(
                (segs@.map_values(|x: String| x@), used as int),
            ) && 1 <= used <= hi - lo,
            None => path_from(toks@.subrange(lo as int, hi as int)) is None,
        },
    decreases hi - lo,
{
    let ghost s = toks@.subrange(lo as int, hi as int);
    if lo == hi {
        return None;
    }
    assert(s[0] == toks@[lo as int]);
    let n = match &toks[lo] {
        Tok::Ident(n) => n.clone(),
        _ => {
            return None;
        },
    };
    if hi - lo >= 3 && is_punct(&toks[lo + 1], ':') && is_punct(&toks[lo + 2], ':') {
        assert(s[1] == toks@[lo + 1] && s[2] == toks@[lo + 2]);
        assert(s.subrange(3, s.len() as int) =~= toks@.subrange(lo + 3, hi as int));
        match path_exec(toks, lo + 3, hi) {
            Some((rest, used)) => {
                let ghost tail = rest@;
                let mut segs = rest;
                segs.insert(0, n);
                assert(segs@.map_values(|x: String| x@) =~= seq![s[0]->Ident_0@] + tail.map_values(
                    |x: String| x@,
                ));
                Some((segs, used + 3))
            },
            None => None,
        }
    } else {
        proof {
            if hi - lo >= 3 {
                assert(s[1] == toks@[lo + 1] && s[2] == toks@[lo + 2]);
            }
        }
        let mut segs = Vec::new();
        segs.push(n);
        assert(segs@.map_values(|x: String| x@) =~= seq![s[0]->Ident_0@]);
        Some((segs, 1))
    }
}

fn zero_value_exec(key: &str, toks: &[Tok], lo: usize, hi: usize, st: ZeroOptions) -> (r: Option<
    (ZeroOptions, usize),
>)
    requires
        lo <= hi <= toks@.len(),
    ensures
        match r {
            Some((next, used)) => zero_value(key@, toks@.subrange(lo as int, hi as int), st.view_options())
                == Some((next.view_options(), used as int)) && used <= hi - lo,
            None => zero_value(key@, toks@.subrange(lo as int, hi as int), st.view_options()) is None,
        },
{
    let ghost s = toks@.subrange(lo as int, hi as int);
    if lo == hi {
        return None;
    }
    assert(s[0] == toks@[lo as int]);
    let mut st = st;
    if same_text(key, "endian") {
        match &toks[lo] {
            Tok::Str(text) => {
                if same_text(text.as_str(), "native") {
                    st.endian = Some(Endian::Native);
                } else if same_text(text.as_str(), "little") {
                    st.endian = Some(Endian::Little);
                } else if same_text(text.as_str(), "big") {
                    st.endian = Some(Endian::Big);
                } else {
                    return None;
                }
                Some((st, 1))
            },
            _ => None,
        }
    } else if same_text(key, "capacity") {
        match &toks[lo] {
            Tok::Int(n) => {
                if *n <= 0xffff_ffff {
                    st.capacity = Some(*n as u32);
                    Some((st, 1))
                } else {
                    None
                }
            },
            _ => None,
        }
    } else if same_text(key, "align") {
        match &toks[lo] {
            Tok::Int(n) => {
                if *n <= 0xffff_ffff && pow2(*n) {
                    st.align = Some(*n as u32);
                    Some((st, 1))
                } else {
                    None
                }
            },
            _ => None,
        }
    } else if same_text(key, "len_type") {
        match path_exec(toks, lo, hi) {
            Some((segs, used)) => {
                let ghost names = segs@.map_values(|x: String| x@);
                if segs.len() == 1 && same_text(segs[0].as_str(), "u8") {
                    assert(names =~= seq!["u8"@]);
                    st.len = Some(IntWidth::U8);
                } else if segs.len() == 1 && same_text(segs[0].as_str(), "u16") {
                    assert(names =~= seq!["u16"@]);
                    proof {
                        if names == seq!["u8"@] {
                            assert(names[0] == "u8"@);
                        }
                    }
                    st.len = Some(IntWidth::U16);
                } else if segs.len() == 1 && same_text(segs[0].as_str(), "u32") {
                    assert(names =~= seq!["u32"@]);
                    proof {
                        if names == seq!["u8"@] || names == seq!["u16"@] {
                            assert(names[0] == "u8"@ || names[0] == "u16"@);
                        }
                    }
                    st.len = Some(IntWidth::U32);
                } else {
                    proof {
                        if names == seq!["u8"@] || names == seq!["u16"@] || names == seq!["u32"@] {
                            assert(names.len() == 1);
                            assert(names[0] == segs@[0]@);
                        }
                    }
                    return None;
                }
                Some((st, used))
            },
            None => None,
        }
    } else if same_text(key, "tag") {
        match path_exec(toks, lo, hi) {
            Some((segs, used)) => {
                st.tag = Some(segs);
                Some((st, used))
            },
            None => None,
        }
    } else if same_text(key, "tag_field") {
        match &toks[lo] {
            Tok::Ident(n) => {
                st.tag_field = Some(n.clone());
                Some((st, 1))
            },
            _ => None,
        }
    } else {
        None
    }
}

fn zero_exec(toks: &[Tok], lo: usize, hi: usize, st: ZeroOptions) -> (r: Option<ZeroOptions>)
    requires
        lo <= hi <= toks@.len(),
    ensures
        match r {
            Some(o) => zero_entries(toks@.subrange(lo as int, hi as int), st.view_options()) == Some(
                o.view_options(),
            ),
            None => zero_entries(toks@.subrange(lo as int, hi as int), st.view_options()) is None,
        },
    decreases hi - lo,
{
    let ghost s = toks@.subrange(lo as int, hi as int);
    if lo == hi {
        return Some(st);
    }
    if hi - lo < 3 {
        return None;
    }
    assert(s[0] == toks@[lo as int] && s[1] == toks@[lo + 1]);
    let key = match &toks[lo] {
        Tok::Ident(key) => key,
        _ => {
            return None;
        },
    };
    if !is_punct(&toks[lo + 1], '=') {
        return None;
    }
    assert(s.subrange(2, s.len() as int) =~= toks@.subrange(lo + 2, hi as int));
    match zero_value_exec(key.as_str(), toks, lo + 2, hi, st) {
        Some((next, used)) => {
            let end = 2 + used;
            if used < 1 {
                None
            } else if end == hi - lo {
                Some(next)
            } else if end < hi - lo && is_punct(&toks[lo + end], ',') {
                assert(s[end as int] == toks@[lo + end]);
                assert(s.subrange(end + 1, s.len() as int) =~= toks@.subrange(lo + end + 1, hi as int));
                zero_exec(toks, lo + end + 1, hi, next)
            } else {
                proof {
                    if end < hi - lo {
                        assert(s[end as int] == toks@[lo + end]);
                    }
                }
                None
            }
        },
        None => None,
    }
}

proof fn lemma_attrs_stay_refused(list: Seq<Attr>, allow_naming: bool, k: int, n: int)
    requires
        0 <= k <= n,
        attrs_upto(list, allow_naming, k) is None,
    ensures
        attrs_upto(list, allow_naming, n) is None,
    decreases n - k,
{
    if k < n {
        lemma_attrs_stay_refused(list, allow_naming, k, n - 1);
    }
}

/// Reads the schema options and the representation width from the
/// attributes of one declaration; `allow_naming` admits the naming allowance.
/// Refused exactly when an attribute breaks the attribute grammar.
pub fn attrs(list: &[Attr], allow_naming: bool) -> (r: Result<(ZeroOptions, Option<IntWidth>), AttrError>)
    ensures
        match r {
            Ok((z, repr)) => attrs_upto(list@, allow_naming, list@.len() as int) == Some(
                (z.view_options(), repr),
            ),
            Err(_) => attrs_upto(list@, allow_naming, list@.len() as int) is None,
        },
{
    let mut z = ZeroOptions {
        endian: None,
        align: None,
        capacity: None,
        len: None,
        tag: None,
        tag_field: None,
    };
    let mut repr: Option<IntWidth> = None;
    let mut k: usize = 0;
    while k < list.len()
        invariant
            k <= list@.len(),
            attrs_upto(list@, allow_naming, k as int) == Some((z.view_options(), repr)),
        decreases list@.len() - k,
    {
        let a = &list[k];
        let mut failed = false;
        let single = a.path.len() == 1;
        if single && same_text(a.path[0].as_str(), "doc") {
        } else if single && same_text(a.path[0].as_str(), "derive") {
            match &a.args {
                AttrArgs::List(toks) => {
                    assert(toks@.subrange(0, toks@.len() as int) =~= toks@);
                    if !derives_check(toks.as_slice(), 0, toks.len()) {
                        failed = true;
                    }
                },
                _ => {
                    failed = true;
                },
            }
        } else if single && same_text(a.path[0].as_str(), "allow") {
            match &a.args {
                AttrArgs::List(toks) => {
                    if !(allow_naming && toks.len() == 1 && kw(&toks[0], "non_camel_case_types")) {
                        failed = true;
                    }
                },
                _ => {
                    failed = true;
                },
            }
        } else if single && same_text(a.path[0].as_str(), "repr") {
            match &a.args {
                AttrArgs::List(toks) => {
                    assert(toks@.subrange(0, toks@.len() as int) =~= toks@);
                    match repr_exec(toks.as_slice(), 0, toks.len(), z.align, repr) {
                        Some((align, width)) => {
                            z.align = align;
                            repr = width;
                        },
                        None => {
                            failed = true;
                        },
                    }
                },
                _ => {
                    failed = true;
                },
            }
        } else if single && same_text(a.path[0].as_str(), "zero") {
            match &a.args {
                AttrArgs::Word => {},
                AttrArgs::List(toks) => {
                    assert(toks@.subrange(0, toks@.len() as int) =~= toks@);
                    match zero_exec(toks.as_slice(), 0, toks.len(), z) {
                        Some(options) => {
                            z = options;
                        },
                        None => {
                            proof {
                                lemma_attrs_stay_refused(list@, allow_naming, k + 1, list@.len() as int);
                            }
                            return Err(AttrError::Unsupported);
                        },
                    }
                },
                AttrArgs::Assigned => {
                    failed = true;
                },
            }
        } else {
            failed = true;
        }
        if failed {
            proof {
                lemma_attrs_stay_refused(list@, allow_naming, k + 1, list@.len() as int);
            }
            return Err(AttrError::Unsupported);
        }
        k += 1;
    }
    Ok((z, repr))
}

} // verus!

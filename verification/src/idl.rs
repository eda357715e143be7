//! Front end for the standalone interface-definition language.
//!
//! The dialect understood here is the subset the error-definition pipeline
//! needs: a `namespace` declaration followed by any number of enumerations
//! carrying the `[Error]` marker. Line comments (`//`) and whitespace may
//! appear between tokens. The parser is written against a character-level
//! specification, and the canonical-text backend is proved to invert it.

use vstd::prelude::*;

use crate::text::chars_string;
use crate::text::is_ident_char;
use crate::text::is_ident_start;
use crate::text::is_ws_char;
use crate::text::ident_char;
use crate::text::ident_start;
use crate::text::to_chars;
use crate::text::ws_char;
use vstd::string::StrSliceExecFns;

verus! {

/// The mathematical model of one parsed enumeration declaration.
#[verifier::ext_equal]
pub struct IdlEnumV {
    pub name: Seq<char>,
    pub values: Seq<Seq<char>>,
}

/// The mathematical model of a whole parsed document.
#[verifier::ext_equal]
pub struct ParsedIdlV {
    pub namespace: Seq<char>,
    pub enums: Seq<IdlEnumV>,
}

/// A syntax-tree node: one enumeration declared with the `[Error]` marker.
#[derive(Debug)]
pub struct IdlEnum {
    pub name: String,
    pub values: Vec<String>,
}

impl View for IdlEnum {
    type V = IdlEnumV;

    open spec fn view(&self) -> IdlEnumV {
        IdlEnumV { name: self.name@, values: self.values.deep_view() }
    }
}

impl DeepView for IdlEnum {
    type V = IdlEnumV;

    open spec fn deep_view(&self) -> IdlEnumV {
        self.view()
    }
}

/// Index of the first character at or after `i` that is neither whitespace
/// nor part of a line comment.
pub open spec fn skip_ws(s: Seq<char>, i: int) -> int
    decreases s.len() - i,
    when 0 <= i <= s.len()
{
    if i >= s.len() {
        i
    } else if is_ws_char(s[i]) {
        skip_ws(s, i + 1)
    } else if i + 1 < s.len() && s[i] == '/' && s[i + 1] == '/' {
        skip_line(s, i + 2)
    } else {
        i
    }
}

/// Scanning inside a line comment: index of the first character after the
/// comment and any further whitespace.
pub open spec fn skip_line(s: Seq<char>, i: int) -> int
    decreases s.len() - i,
    when 0 <= i <= s.len()
{
    if i >= s.len() {
        i
    } else if s[i] == '\n' {
        skip_ws(s, i + 1)
    } else {
        skip_line(s, i + 1)
    }
}

pub proof fn lemma_skip_ws_bounds(s: Seq<char>, i: int)
    requires
        0 <= i <= s.len(),
    ensures
        i <= skip_ws(s, i) <= s.len(),
    decreases s.len() - i,
{
    if i >= s.len() {
    } else if is_ws_char(s[i]) {
        lemma_skip_ws_bounds(s, i + 1);
    } else if i + 1 < s.len() && s[i] == '/' && s[i + 1] == '/' {
        lemma_skip_line_bounds(s, i + 2);
    }
}

pub proof fn lemma_skip_line_bounds(s: Seq<char>, i: int)
    requires
        0 <= i <= s.len(),
    ensures
        i <= skip_line(s, i) <= s.len(),
    decreases s.len() - i,
{
    if i >= s.len() {
    } else if s[i] == '\n' {
        lemma_skip_ws_bounds(s, i + 1);
    } else {
        lemma_skip_line_bounds(s, i + 1);
    }
}

/// End of the identifier-character run that starts at `i`.
pub open spec fn scan_ident_end(s: Seq<char>, i: int) -> int
    decreases s.len() - i,
    when 0 <= i <= s.len()
{
    if i < s.len() && is_ident_char(s[i]) {
        scan_ident_end(s, i + 1)
    } else {
        i
    }
}

pub proof fn lemma_scan_ident_end_bounds(s: Seq<char>, i: int)
    requires
        0 <= i <= s.len(),
    ensures
        i <= scan_ident_end(s, i) <= s.len(),
    decreases s.len() - i,
{
    if i < s.len() && is_ident_char(s[i]) {
        lemma_scan_ident_end_bounds(s, i + 1);
    }
}

/// Index of the closing quote at or after `i`, or the text's length when the
/// literal is unterminated.
pub open spec fn scan_str_end(s: Seq<char>, i: int) -> int
    decreases s.len() - i,
    when 0 <= i <= s.len()
{
    if i >= s.len() {
        i
    } else if s[i] == '"' {
        i
    } else {
        scan_str_end(s, i + 1)
    }
}

pub proof fn lemma_scan_str_end_bounds(s: Seq<char>, i: int)
    requires
        0 <= i <= s.len(),
    ensures
        i <= scan_str_end(s, i) <= s.len(),
    decreases s.len() - i,
{
    if i >= s.len() {
    } else if s[i] == '"' {
    } else {
        lemma_scan_str_end_bounds(s, i + 1);
    }
}

/// Does the fixed word `w` stand at position `i`? If so, the position after it.
pub open spec fn spec_expect_lit(s: Seq<char>, i: int, w: Seq<char>) -> Option<int> {
    if 0 <= i && i + w.len() <= s.len() && s.subrange(i, i + w.len()) == w {
        Some(i + w.len())
    } else {
        None
    }
}

/// An identifier at position `i`: its characters and the position after it.
pub open spec fn spec_parse_ident(s: Seq<char>, i: int) -> Option<(Seq<char>, int)> {
    if 0 <= i && i < s.len() && is_ident_start(s[i]) {
        let e = scan_ident_end(s, i);
        Some((s.subrange(i, e), e))
    } else {
        None
    }
}

/// A quoted string literal at position `i`: its contents and the position
/// after the closing quote.
pub open spec fn spec_parse_strlit(s: Seq<char>, i: int) -> Option<(Seq<char>, int)> {
    if 0 <= i && i < s.len() && s[i] == '"' {
        let e = scan_str_end(s, i + 1);
        if e < s.len() {
            Some((s.subrange(i + 1, e), e + 1))
        } else {
            None
        }
    } else {
        None
    }
}

/// The comma-separated string literals of an enum body, entered just after
/// the opening brace; the returned position is that of the closing brace.
pub open spec fn spec_parse_members(s: Seq<char>, i: int) -> Option<(Seq<Seq<char>>, int)>
    decreases s.len() - i,
    when 0 <= i <= s.len()
{
    let j = skip_ws(s, i);
    if !(i <= j <= s.len()) {
        None
    } else if j < s.len() && s[j] == '}' {
        Some((Seq::empty(), j))
    } else {
        match spec_parse_strlit(s, j) {
            Option::None => None,
            Option::Some((v, k)) => {
                if !(j < k <= s.len()) {
                    None
                } else {
                    let m = skip_ws(s, k);
                    if !(k <= m <= s.len()) {
                        None
                    } else if m < s.len() && s[m] == ',' {
                        match spec_parse_members(s, m + 1) {
                            Option::None => None,
                            Option::Some((rest, e)) => Some((seq![v] + rest, e)),
                        }
                    } else if m < s.len() && s[m] == '}' {
                        Some((seq![v], m))
                    } else {
                        None
                    }
                }
            },
        }
    }
}

/// One `[Error] enum Name { ... };` declaration starting exactly at `i`.
pub open spec fn spec_parse_def(s: Seq<char>, i: int) -> Option<(IdlEnumV, int)> {
    match spec_expect_lit(s, i, "["@) {
        Option::None => None,
        Option::Some(i1) => {
            let i2 = skip_ws(s, i1);
            match spec_expect_lit(s, i2, "Error"@) {
                Option::None => None,
                Option::Some(i3) => {
                    let i4 = skip_ws(s, i3);
                    match spec_expect_lit(s, i4, "]"@) {
                        Option::None => None,
                        Option::Some(i5) => {
                            let i6 = skip_ws(s, i5);
                            match spec_expect_lit(s, i6, "enum"@) {
                                Option::None => None,
                                Option::Some(i7) => {
                                    let i8 = skip_ws(s, i7);
                                    spec_parse_def_tail(s, i8)
                                },
                            }
                        },
                    }
                },
            }
        },
    }
}

/// The name and body of a declaration, from the enum's name onward.
pub open spec fn spec_parse_def_tail(s: Seq<char>, i: int) -> Option<(IdlEnumV, int)> {
    match spec_parse_ident(s, i) {
        Option::None => None,
        Option::Some((name, j)) => {
            let k = skip_ws(s, j);
            match spec_expect_lit(s, k, "{"@) {
                Option::None => None,
                Option::Some(k1) => {
                    if !(0 <= k1 <= s.len()) {
                        None
                    } else {
                        match spec_parse_members(s, k1) {
                            Option::None => None,
                            Option::Some((vals, b)) => {
                                if !(0 <= b < s.len()) {
                                    None
                                } else {
                                    let c = skip_ws(s, b + 1);
                                    match spec_expect_lit(s, c, ";"@) {
                                        Option::None => None,
                                        Option::Some(e) => Some(
                                            (IdlEnumV { name, values: vals }, e),
                                        ),
                                    }
                                }
                            },
                        }
                    }
                },
            }
        },
    }
}

/// Every declaration from position `i` to the end of the text.
pub open spec fn spec_parse_defs(s: Seq<char>, i: int) -> Option<Seq<IdlEnumV>>
    decreases s.len() - i,
    when 0 <= i <= s.len()
{
    let j = skip_ws(s, i);
    if !(i <= j <= s.len()) {
        None
    } else if j >= s.len() {
        Some(Seq::empty())
    } else {
        match spec_parse_def(s, j) {
            Option::None => None,
            Option::Some((d, k)) => {
                if !(i < k <= s.len()) {
                    None
                } else {
                    match spec_parse_defs(s, k) {
                        Option::None => None,
                        Option::Some(rest) => Some(seq![d] + rest),
                    }
                }
            },
        }
    }
}

/// A whole document: the namespace declaration, then the definitions.
pub open spec fn spec_parse_idl(s: Seq<char>) -> Option<ParsedIdlV> {
    let i = skip_ws(s, 0);
    match spec_expect_lit(s, i, "namespace"@) {
        Option::None => None,
        Option::Some(i1) => {
            let i2 = skip_ws(s, i1);
            match spec_parse_ident(s, i2) {
                Option::None => None,
                Option::Some((ns, j)) => {
                    let k = skip_ws(s, j);
                    match spec_expect_lit(s, k, "{"@) {
                        Option::None => None,
                        Option::Some(k1) => {
                            let k2 = skip_ws(s, k1);
                            match spec_expect_lit(s, k2, "}"@) {
                                Option::None => None,
                                Option::Some(k3) => {
                                    let k4 = skip_ws(s, k3);
                                    match spec_expect_lit(s, k4, ";"@) {
                                        Option::None => None,
                                        Option::Some(p) => {
                                            if !(0 <= p <= s.len()) {
                                                None
                                            } else {
                                                match spec_parse_defs(s, p) {
                                                    Option::None => None,
                                                    Option::Some(enums) => Some(
                                                        ParsedIdlV { namespace: ns, enums },
                                                    ),
                                                }
                                            }
                                        },
                                    }
                                },
                            }
                        },
                    }
                },
            }
        },
    }
}

/// Does the type use no named kinds? The parser below covers exactly this
/// structural fragment: named kinds are resolved against the interface's
/// registry, never by spelling alone.
pub open spec fn type_no_names(t: crate::types::Type) -> bool
    decreases t,
{
    match t {
        crate::types::Type::Enum(_) => false,
        crate::types::Type::Record(_) => false,
        crate::types::Type::Object(_) => false,
        crate::types::Type::Error(_) => false,
        crate::types::Type::CallbackInterface(_) => false,
        crate::types::Type::Optional(inner) => type_no_names(*inner),
        crate::types::Type::Sequence(inner) => type_no_names(*inner),
        crate::types::Type::StringMap(inner) => type_no_names(*inner),
        _ => true,
    }
}

/// How many `?` markers stand at position `i`.
pub open spec fn count_opt_marks(s: Seq<char>, i: int) -> int
    decreases s.len() - i,
    when 0 <= i <= s.len()
{
    if i < s.len() && s[i] == '?' {
        1 + count_opt_marks(s, i + 1)
    } else {
        0
    }
}

pub proof fn lemma_count_opt_marks_bounds(s: Seq<char>, i: int)
    requires
        0 <= i <= s.len(),
    ensures
        0 <= count_opt_marks(s, i) <= s.len() - i,
    decreases s.len() - i,
{
    if i < s.len() && s[i] == '?' {
        lemma_count_opt_marks_bounds(s, i + 1);
    }
}

/// `t` wrapped in `n` layers of `Optional`.
pub open spec fn wrap_optional(t: crate::types::Type, n: int) -> crate::types::Type
    decreases n,
    when n >= 0
{
    if n <= 0 {
        t
    } else {
        crate::types::Type::Optional(Box::new(wrap_optional(t, n - 1)))
    }
}

/// A type expression without its optionality markers: one of the built-in
/// spellings, a sequence, or a string-keyed map.
pub open spec fn spec_parse_type_base(s: Seq<char>, i: int) -> Option<(crate::types::Type, int)>
    decreases s.len() - i, 0int,
    when 0 <= i <= s.len()
{
    match spec_parse_ident(s, i) {
        Option::None => None,
        Option::Some((w, e)) => {
            if !(i < e <= s.len()) {
                None
            } else if w == "u8"@ {
                Some((crate::types::Type::UInt8, e))
            } else if w == "u16"@ {
                Some((crate::types::Type::UInt16, e))
            } else if w == "u32"@ {
                Some((crate::types::Type::UInt32, e))
            } else if w == "u64"@ {
                Some((crate::types::Type::UInt64, e))
            } else if w == "i8"@ {
                Some((crate::types::Type::Int8, e))
            } else if w == "i16"@ {
                Some((crate::types::Type::Int16, e))
            } else if w == "i32"@ {
                Some((crate::types::Type::Int32, e))
            } else if w == "i64"@ {
                Some((crate::types::Type::Int64, e))
            } else if w == "f32"@ {
                Some((crate::types::Type::Float32, e))
            } else if w == "f64"@ {
                Some((crate::types::Type::Float64, e))
            } else if w == "boolean"@ {
                Some((crate::types::Type::Boolean, e))
            } else if w == "string"@ {
                Some((crate::types::Type::String, e))
            } else if w == "sequence"@ {
                match spec_expect_lit(s, e, "<"@) {
                    Option::None => None,
                    Option::Some(a) => {
                        if !(i < a <= s.len()) {
                            None
                        } else {
                            match spec_parse_type(s, a) {
                                Option::None => None,
                                Option::Some((inner, b)) => {
                                    if !(a <= b <= s.len()) {
                                        None
                                    } else {
                                        match spec_expect_lit(s, b, ">"@) {
                                            Option::None => None,
                                            Option::Some(c) => Some(
                                                (
                                                    crate::types::Type::Sequence(Box::new(inner)),
                                                    c,
                                                ),
                                            ),
                                        }
                                    }
                                },
                            }
                        }
                    },
                }
            } else if w == "record"@ {
                match spec_expect_lit(s, e, "<DOMString, "@) {
                    Option::None => None,
                    Option::Some(a) => {
                        if !(i < a <= s.len()) {
                            None
                        } else {
                            match spec_parse_type(s, a) {
                                Option::None => None,
                                Option::Some((inner, b)) => {
                                    if !(a <= b <= s.len()) {
                                        None
                                    } else {
                                        match spec_expect_lit(s, b, ">"@) {
                                            Option::None => None,
                                            Option::Some(c) => Some(
                                                (
                                                    crate::types::Type::StringMap(Box::new(inner)),
                                                    c,
                                                ),
                                            ),
                                        }
                                    }
                                },
                            }
                        }
                    },
                }
            } else {
                None
            }
        },
    }
}

/// A whole type expression at position `i`: a base expression followed by
/// any number of optionality markers.
pub open spec fn spec_parse_type(s: Seq<char>, i: int) -> Option<(crate::types::Type, int)>
    decreases s.len() - i, 1int,
    when 0 <= i <= s.len()
{
    match spec_parse_type_base(s, i) {
        Option::None => None,
        Option::Some((t, j)) => {
            if !(i < j <= s.len()) {
                None
            } else {
                let q = count_opt_marks(s, j);
                if 0 <= q <= s.len() - j {
                    Some((wrap_optional(t, q), j + q))
                } else {
                    None
                }
            }
        },
    }
}

pub(crate) fn skip_ws_at(s: &Vec<char>, i: usize) -> (r: usize)
    requires
        i <= s@.len(),
    ensures
        r as int == skip_ws(s@, i as int),
        i <= r <= s@.len(),
    decreases s@.len() - i,
{
    if i >= s.len() {
        i
    } else {
        let c = s[i];
        if ws_char(c) {
            skip_ws_at(s, i + 1)
        } else if i + 1 < s.len() && c == '/' && s[i + 1] == '/' {
            skip_line_at(s, i + 2)
        } else {
            i
        }
    }
}

pub(crate) fn skip_line_at(s: &Vec<char>, i: usize) -> (r: usize)
    requires
        i <= s@.len(),
    ensures
        r as int == skip_line(s@, i as int),
        i <= r <= s@.len(),
    decreases s@.len() - i,
{
    if i >= s.len() {
        i
    } else if s[i] == '\n' {
        skip_ws_at(s, i + 1)
    } else {
        skip_line_at(s, i + 1)
    }
}

pub(crate) fn scan_ident_end_at(s: &Vec<char>, i: usize) -> (r: usize)
    requires
        i <= s@.len(),
    ensures
        r as int == scan_ident_end(s@, i as int),
        i <= r <= s@.len(),
    decreases s@.len() - i,
{
    if i < s.len() && ident_char(s[i]) {
        scan_ident_end_at(s, i + 1)
    } else {
        i
    }
}

pub(crate) fn scan_str_end_at(s: &Vec<char>, i: usize) -> (r: usize)
    requires
        i <= s@.len(),
    ensures
        r as int == scan_str_end(s@, i as int),
        i <= r <= s@.len(),
    decreases s@.len() - i,
{
    if i >= s.len() {
        i
    } else if s[i] == '"' {
        i
    } else {
        scan_str_end_at(s, i + 1)
    }
}

pub(crate) fn expect_lit_at(s: &Vec<char>, i: usize, w: &str) -> (r: Option<usize>)
    requires
        i <= s@.len(),
    ensures
        match r {
            Some(j) => spec_expect_lit(s@, i as int, w@) == Some(j as int) && i <= j <= s@.len(),
            None => spec_expect_lit(s@, i as int, w@) is None,
        },
{
    let wl = w.unicode_len();
    let sl = s.len();
    if wl > sl - i {
        return None;
    }
    let mut k: usize = 0;
    while k < wl
        invariant
            k <= wl,
            wl == w@.len(),
            sl == s@.len(),
            i + wl <= sl,
            s@.subrange(i as int, i as int + k as int) == w@.subrange(0, k as int),
        decreases wl - k,
    {
        if s[i + k] != w.get_char(k) {
            assert(s@.subrange(i as int, i as int + wl as int)[k as int] == s@[i as int
                + k as int]);
            assert(s@.subrange(i as int, i as int + wl as int) != w@);
            return None;
        }
        assert(s@.subrange(i as int, i as int + k as int + 1) =~= w@.subrange(0, k as int + 1));
        k += 1;
    }
    assert(s@.subrange(i as int, i as int + wl as int) =~= w@);
    Some(i + wl)
}

pub(crate) fn parse_ident_at(s: &Vec<char>, i: usize) -> (r: Option<(String, usize)>)
    requires
        i <= s@.len(),
    ensures
        match r {
            Some(p) => spec_parse_ident(s@, i as int) == Some((p.0@, p.1 as int)) && i < p.1
                <= s@.len(),
            None => spec_parse_ident(s@, i as int) is None,
        },
{
    if i < s.len() && ident_start(s[i]) {
        let e = scan_ident_end_at(s, i);
        assert(e > i) by {
            assert(scan_ident_end(s@, i as int) == scan_ident_end(s@, i as int + 1));
            lemma_scan_ident_end_bounds(s@, i as int + 1);
        }
        let id = chars_string(s, i, e);
        Some((id, e))
    } else {
        None
    }
}

pub(crate) fn parse_strlit_at(s: &Vec<char>, i: usize) -> (r: Option<(String, usize)>)
    requires
        i <= s@.len(),
    ensures
        match r {
            Some(p) => spec_parse_strlit(s@, i as int) == Some((p.0@, p.1 as int)) && i < p.1
                <= s@.len(),
            None => spec_parse_strlit(s@, i as int) is None,
        },
{
    if i < s.len() && s[i] == '"' {
        let e = scan_str_end_at(s, i + 1);
        if e < s.len() {
            let v = chars_string(s, i + 1, e);
            Some((v, e + 1))
        } else {
            None
        }
    } else {
        None
    }
}

pub(crate) fn parse_members_at(s: &Vec<char>, i: usize) -> (r: Option<(Vec<String>, usize)>)
    requires
        i <= s@.len(),
    ensures
        match r {
            Some(p) => spec_parse_members(s@, i as int) == Some((p.0.deep_view(), p.1 as int)) && i
                <= p.1 < s@.len(),
            None => spec_parse_members(s@, i as int) is None,
        },
    decreases s@.len() - i,
{
    let j = skip_ws_at(s, i);
    if j < s.len() && s[j] == '}' {
        let vals: Vec<String> = Vec::new();
        assert(vals.deep_view() =~= Seq::<Seq<char>>::empty());
        return Some((vals, j));
    }
    match parse_strlit_at(s, j) {
        None => None,
        Some((v, k)) => {
            let m = skip_ws_at(s, k);
            if m < s.len() && s[m] == ',' {
                match parse_members_at(s, m + 1) {
                    None => None,
                    Some((rest, e)) => {
                        let ghost restv = rest.deep_view();
                        let mut vals: Vec<String> = Vec::new();
                        let ghost vv = v@;
                        vals.push(v);
                        let mut tail = rest;
                        vals.append(&mut tail);
                        assert(vals.deep_view() =~= seq![vv] + restv) by {
                            assert forall|q: int| 0 <= q < vals@.len() implies vals.deep_view()[q]
                                == (seq![vv] + restv)[q] by {
                                if q > 0 {
                                    assert(vals@[q] == rest@[q - 1]);
                                }
                            }
                        }
                        Some((vals, e))
                    },
                }
            } else if m < s.len() && s[m] == '}' {
                let ghost vv = v@;
                let mut vals: Vec<String> = Vec::new();
                vals.push(v);
                assert(vals.deep_view() =~= seq![vv]);
                Some((vals, m))
            } else {
                None
            }
        },
    }
}

pub(crate) fn parse_def_at(s: &Vec<char>, i: usize) -> (r: Option<(IdlEnum, usize)>)
    requires
        i <= s@.len(),
    ensures
        match r {
            Some(p) => spec_parse_def(s@, i as int) == Some((p.0@, p.1 as int)) && i < p.1
                <= s@.len(),
            None => spec_parse_def(s@, i as int) is None,
        },
{
    let i1 = match expect_lit_at(s, i, "[") {
        None => {
            return None;
        },
        Some(x) => x,
    };
    let i2 = skip_ws_at(s, i1);
    let i3 = match expect_lit_at(s, i2, "Error") {
        None => {
            return None;
        },
        Some(x) => x,
    };
    let i4 = skip_ws_at(s, i3);
    let i5 = match expect_lit_at(s, i4, "]") {
        None => {
            return None;
        },
        Some(x) => x,
    };
    let i6 = skip_ws_at(s, i5);
    let i7 = match expect_lit_at(s, i6, "enum") {
        None => {
            return None;
        },
        Some(x) => x,
    };
    let i8 = skip_ws_at(s, i7);
    let (name, j) = match parse_ident_at(s, i8) {
        None => {
            return None;
        },
        Some(x) => x,
    };
    let k = skip_ws_at(s, j);
    let k1 = match expect_lit_at(s, k, "{") {
        None => {
            return None;
        },
        Some(x) => x,
    };
    let (vals, b) = match parse_members_at(s, k1) {
        None => {
            return None;
        },
        Some(x) => x,
    };
    let n = s.len();
    assert(b < n);
    let c = skip_ws_at(s, b + 1);
    let e = match expect_lit_at(s, c, ";") {
        None => {
            return None;
        },
        Some(x) => x,
    };
    let node = IdlEnum { name, values: vals };
    Some((node, e))
}

pub(crate) fn parse_defs_at(s: &Vec<char>, i: usize) -> (r: Option<Vec<IdlEnum>>)
    requires
        i <= s@.len(),
    ensures
        match r {
            Some(ds) => spec_parse_defs(s@, i as int) == Some(ds.deep_view()),
            None => spec_parse_defs(s@, i as int) is None,
        },
    decreases s@.len() - i,
{
    let j = skip_ws_at(s, i);
    if j >= s.len() {
        let ds: Vec<IdlEnum> = Vec::new();
        assert(ds.deep_view() =~= Seq::<IdlEnumV>::empty());
        return Some(ds);
    }
    match parse_def_at(s, j) {
        None => None,
        Some((d, k)) => {
            match parse_defs_at(s, k) {
                None => None,
                Some(rest) => {
                    let ghost restv = rest.deep_view();
                    let ghost dv = d@;
                    let mut ds: Vec<IdlEnum> = Vec::new();
                    ds.push(d);
                    let mut tail = rest;
                    ds.append(&mut tail);
                    assert(ds.deep_view() =~= seq![dv] + restv) by {
                        assert forall|q: int| 0 <= q < ds@.len() implies ds.deep_view()[q] == (
                        seq![dv] + restv)[q] by {
                            if q > 0 {
                                assert(ds@[q] == rest@[q - 1]);
                            }
                        }
                    }
                    Some(ds)
                },
            }
        },
    }
}

fn count_opt_at(s: &Vec<char>, i: usize) -> (r: usize)
    requires
        i <= s@.len(),
    ensures
        r as int == count_opt_marks(s@, i as int),
        i + r <= s@.len(),
    decreases s@.len() - i,
{
    if i < s.len() && s[i] == '?' {
        let r = count_opt_at(s, i + 1);
        1 + r
    } else {
        0
    }
}

fn wrap_optional_levels(t: crate::types::Type, n: usize) -> (r: crate::types::Type)
    ensures
        r == wrap_optional(t, n as int),
    decreases n,
{
    if n == 0 {
        t
    } else {
        crate::types::Type::Optional(Box::new(wrap_optional_levels(t, n - 1)))
    }
}

fn parse_type_base_at(s: &Vec<char>, i: usize) -> (r: Option<(crate::types::Type, usize)>)
    requires
        i <= s@.len(),
    ensures
        match r {
            Some(p) => spec_parse_type_base(s@, i as int) == Some((p.0, p.1 as int)) && i < p.1
                <= s@.len(),
            None => spec_parse_type_base(s@, i as int) is None,
        },
    decreases s@.len() - i, 0int,
{
    let (w, e) = match parse_ident_at(s, i) {
        None => {
            return None;
        },
        Some(x) => x,
    };
    let ws = w.as_str();
    if crate::text::str_eq(ws, "u8") {
        Some((crate::types::Type::UInt8, e))
    } else if crate::text::str_eq(ws, "u16") {
        Some((crate::types::Type::UInt16, e))
    } else if crate::text::str_eq(ws, "u32") {
        Some((crate::types::Type::UInt32, e))
    } else if crate::text::str_eq(ws, "u64") {
        Some((crate::types::Type::UInt64, e))
    } else if crate::text::str_eq(ws, "i8") {
        Some((crate::types::Type::Int8, e))
    } else if crate::text::str_eq(ws, "i16") {
        Some((crate::types::Type::Int16, e))
    } else if crate::text::str_eq(ws, "i32") {
        Some((crate::types::Type::Int32, e))
    } else if crate::text::str_eq(ws, "i64") {
        Some((crate::types::Type::Int64, e))
    } else if crate::text::str_eq(ws, "f32") {
        Some((crate::types::Type::Float32, e))
    } else if crate::text::str_eq(ws, "f64") {
        Some((crate::types::Type::Float64, e))
    } else if crate::text::str_eq(ws, "boolean") {
        Some((crate::types::Type::Boolean, e))
    } else if crate::text::str_eq(ws, "string") {
        Some((crate::types::Type::String, e))
    } else if crate::text::str_eq(ws, "sequence") {
        let a = match expect_lit_at(s, e, "<") {
            None => {
                return None;
            },
            Some(x) => x,
        };
        let (inner, b) = match parse_type_at(s, a) {
            None => {
                return None;
            },
            Some(x) => x,
        };
        let c = match expect_lit_at(s, b, ">") {
            None => {
                return None;
            },
            Some(x) => x,
        };
        Some((crate::types::Type::Sequence(Box::new(inner)), c))
    } else if crate::text::str_eq(ws, "record") {
        let a = match expect_lit_at(s, e, "<DOMString, ") {
            None => {
                return None;
            },
            Some(x) => x,
        };
        let (inner, b) = match parse_type_at(s, a) {
            None => {
                return None;
            },
            Some(x) => x,
        };
        let c = match expect_lit_at(s, b, ">") {
            None => {
                return None;
            },
            Some(x) => x,
        };
        Some((crate::types::Type::StringMap(Box::new(inner)), c))
    } else {
        None
    }
}

fn parse_type_at(s: &Vec<char>, i: usize) -> (r: Option<(crate::types::Type, usize)>)
    requires
        i <= s@.len(),
    ensures
        match r {
            Some(p) => spec_parse_type(s@, i as int) == Some((p.0, p.1 as int)) && i < p.1
                <= s@.len(),
            None => spec_parse_type(s@, i as int) is None,
        },
    decreases s@.len() - i, 1int,
{
    let (t, j) = match parse_type_base_at(s, i) {
        None => {
            return None;
        },
        Some(x) => x,
    };
    let n = s.len();
    let q = count_opt_at(s, j);
    assert(j + q <= n);
    Some((wrap_optional_levels(t, q), j + q))
}

/// Parse one whole type expression in the IDL's spelling.
///
/// Covers the structural fragment — built-in spellings, sequences,
/// string-keyed maps and optionality markers; a bare name is not accepted
/// here, since named kinds resolve through the interface registry.
pub fn parse_type_udl(text: &str) -> (r: Option<crate::types::Type>)
    ensures
        match r {
            Some(t) => spec_parse_type(text@, 0) == Some((t, text@.len() as int)),
            None => !(spec_parse_type(text@, 0) matches Some(p) && p.1 == text@.len()),
        },
{
    let cs = to_chars(text);
    match parse_type_at(&cs, 0) {
        None => None,
        Some((t, j)) => {
            if j == cs.len() {
                Some(t)
            } else {
                None
            }
        },
    }
}

/// Parse a whole interface-definition document.
///
/// Returns the declared namespace and the error enumerations, in declaration
/// order, exactly when the text conforms to [`spec_parse_idl`].
pub fn parse_idl(text: &str) -> (r: Option<(String, Vec<IdlEnum>)>)
    ensures
        match r {
            Some(p) => spec_parse_idl(text@) == Some(
                ParsedIdlV { namespace: p.0@, enums: p.1.deep_view() },
            ),
            None => spec_parse_idl(text@) is None,
        },
{
    let s = to_chars(text);
    let i = skip_ws_at(&s, 0);
    let i1 = match expect_lit_at(&s, i, "namespace") {
        None => {
            return None;
        },
        Some(x) => x,
    };
    let i2 = skip_ws_at(&s, i1);
    let (ns, j) = match parse_ident_at(&s, i2) {
        None => {
            return None;
        },
        Some(x) => x,
    };
    let k = skip_ws_at(&s, j);
    let k1 = match expect_lit_at(&s, k, "{") {
        None => {
            return None;
        },
        Some(x) => x,
    };
    let k2 = skip_ws_at(&s, k1);
    let k3 = match expect_lit_at(&s, k2, "}") {
        None => {
            return None;
        },
        Some(x) => x,
    };
    let k4 = skip_ws_at(&s, k3);
    let p = match expect_lit_at(&s, k4, ";") {
        None => {
            return None;
        },
        Some(x) => x,
    };
    match parse_defs_at(&s, p) {
        None => None,
        Some(ds) => Some((ns, ds)),
    }
}

} // verus!

//! The round-trip laws: the canonical-text backend inverts the front end.
//!
//! An interface built purely from interface-definition-language input
//! renders to text that parses back to the very same interface. The laws
//! here are stated over the same specification functions the executable
//! parser and renderer are verified against, so they carry over to the
//! executable pipeline unchanged.

use vstd::prelude::*;

use crate::error_def::ErrorV;
use crate::idl::IdlEnumV;
use crate::idl::ParsedIdlV;
use crate::idl::scan_ident_end;
use crate::idl::scan_str_end;
use crate::idl::skip_ws;
use crate::idl::spec_expect_lit;
use crate::idl::spec_parse_def;
use crate::idl::spec_parse_def_tail;
use crate::idl::spec_parse_defs;
use crate::idl::spec_parse_idl;
use crate::idl::spec_parse_ident;
use crate::idl::spec_parse_members;
use crate::idl::spec_parse_strlit;
use crate::idl::lemma_skip_ws_bounds;
use crate::interface::ComponentInterfaceV;
use crate::interface::build_interface;
use crate::interface::enums_to_errors;
use crate::gen_udl::spec_render_error;
use crate::gen_udl::spec_render_errors;
use crate::gen_udl::spec_render_member;
use crate::gen_udl::spec_render_members;
use crate::gen_udl::spec_render_udl;
use crate::gen_udl::spec_docstring;
use crate::gen_udl::spec_type_udl;
use crate::idl::type_no_names;
use crate::text::is_ident_char;
use crate::text::is_ident_start;
use crate::text::is_ws_char;
use crate::types::Type;

verus! {

/// The characters of `t` from position `i` to the end.
pub open spec fn suffix_of(t: Seq<char>, i: int) -> Seq<char> {
    t.subrange(i, t.len() as int)
}

/// A name as the front end's identifier grammar accepts it.
pub open spec fn valid_ident(s: Seq<char>) -> bool {
    s.len() > 0 && is_ident_start(s[0]) && forall|i: int| 0 <= i < s.len() ==> is_ident_char(s[i])
}

/// A variant label as a quoted literal can carry it.
pub open spec fn valid_value(v: Seq<char>) -> bool {
    forall|i: int| 0 <= i < v.len() ==> v[i] != '"'
}

/// An error definition exactly as the IDL front end can produce it: a
/// well-formed name, quotable labels, and no documentation (the IDL path
/// attaches none).
pub open spec fn wf_idl_error(e: ErrorV) -> bool {
    &&& valid_ident(e.name)
    &&& e.docs.len() == 0
    &&& forall|i: int| 0 <= i < e.values.len() ==> valid_value(#[trigger] e.values[i])
}

/// An interface exactly as `from_webidl` can build it.
pub open spec fn wf_idl_interface(ci: ComponentInterfaceV) -> bool {
    &&& valid_ident(ci.namespace)
    &&& forall|i: int| 0 <= i < ci.errors.len() ==> wf_idl_error(#[trigger] ci.errors[i])
}

/// The syntax nodes whose conversion yields exactly these errors.
pub open spec fn errors_to_enums(es: Seq<ErrorV>) -> Seq<IdlEnumV> {
    Seq::new(es.len(), |i: int| IdlEnumV { name: es[i].name, values: es[i].values })
}

/// Splitting a known suffix: when the text from `i` on reads `a` then `b`,
/// the characters of `a` stand at `i` and `b` is the suffix after them.
proof fn lemma_split(t: Seq<char>, i: int, a: Seq<char>, b: Seq<char>)
    requires
        0 <= i <= t.len(),
        suffix_of(t, i) == a + b,
    ensures
        i + a.len() <= t.len(),
        t.subrange(i, i + a.len()) == a,
        suffix_of(t, i + a.len()) == b,
        forall|k: int| 0 <= k < a.len() ==> t[i + k] == a[k],
        forall|k: int| 0 <= k < b.len() ==> t[i + a.len() + k] == b[k],
        a.len() > 0 ==> t[i] == a[0],
        b.len() > 0 ==> t[i + a.len()] == b[0],
{
    assert(suffix_of(t, i).len() == t.len() - i);
    if a.len() > 0 {
        assert(suffix_of(t, i)[0] == t[i]);
        assert((a + b)[0] == a[0]);
    }
    if b.len() > 0 {
        assert(suffix_of(t, i)[a.len() as int] == t[i + a.len()]);
        assert((a + b)[a.len() as int] == b[0]);
    }
    assert(suffix_of(t, i).len() == t.len() - i);
    assert forall|k: int| 0 <= k < a.len() implies t[i + k] == a[k] by {
        assert(suffix_of(t, i)[k] == t[i + k]);
        assert((a + b)[k] == a[k]);
    }
    assert forall|k: int| 0 <= k < b.len() implies t[i + a.len() + k] == b[k] by {
        assert(suffix_of(t, i)[a.len() + k] == t[i + a.len() + k]);
        assert((a + b)[a.len() + k] == b[k]);
    }
    assert(t.subrange(i, i + a.len()) =~= a);
    assert(suffix_of(t, i + a.len()) =~= b);
}

/// Scanning stops immediately on a character that opens no whitespace and
/// no comment.
proof fn lemma_skip_ws_stop(t: Seq<char>, i: int)
    requires
        0 <= i < t.len(),
        !is_ws_char(t[i]),
        t[i] != '/',
    ensures
        skip_ws(t, i) == i,
{
}

/// Scanning a run of plain whitespace ends at its end.
proof fn lemma_skip_ws_run(t: Seq<char>, i: int, j: int)
    requires
        0 <= i <= j <= t.len(),
        forall|k: int| i <= k < j ==> is_ws_char(#[trigger] t[k]),
        j == t.len() || (!is_ws_char(t[j]) && t[j] != '/'),
    ensures
        skip_ws(t, i) == j,
    decreases j - i,
{
    if i < j {
        lemma_skip_ws_run(t, i + 1, j);
    }
}

/// An identifier scan covers exactly a well-formed name followed by a
/// non-identifier character.
proof fn lemma_scan_ident_run(t: Seq<char>, i: int, j: int)
    requires
        0 <= i <= j <= t.len(),
        forall|k: int| i <= k < j ==> is_ident_char(#[trigger] t[k]),
        j == t.len() || !is_ident_char(t[j]),
    ensures
        scan_ident_end(t, i) == j,
    decreases j - i,
{
    if i < j {
        lemma_scan_ident_run(t, i + 1, j);
    }
}

/// Parsing an identifier where a well-formed name stands yields that name.
proof fn lemma_parse_ident_here(t: Seq<char>, i: int, id: Seq<char>, rest: Seq<char>)
    requires
        0 <= i <= t.len(),
        suffix_of(t, i) == id + rest,
        valid_ident(id),
        rest.len() == 0 || !is_ident_char(rest[0]),
    ensures
        spec_parse_ident(t, i) == Some((id, i + id.len())),
        suffix_of(t, i + id.len()) == rest,
    {
    lemma_split(t, i, id, rest);
    assert(t[i + 0] == id[0]);
    assert forall|k: int| i <= k < i + id.len() implies is_ident_char(#[trigger] t[k]) by {
        let q = k - i;
        assert(t[i + q] == id[q]);
    }
    if rest.len() > 0 {
        assert(t[i + id.len() + 0] == rest[0]);
    } else {
        assert(suffix_of(t, i + id.len()).len() == t.len() - (i + id.len()));
    }
    lemma_scan_ident_run(t, i, i + id.len());
}

/// A literal-string scan covers exactly a quotable label followed by its
/// closing quote.
proof fn lemma_scan_str_run(t: Seq<char>, i: int, j: int)
    requires
        0 <= i <= j < t.len(),
        forall|k: int| i <= k < j ==> t[k] != '"',
        t[j] == '"',
    ensures
        scan_str_end(t, i) == j,
    decreases j - i,
{
    if i < j {
        lemma_scan_str_run(t, i + 1, j);
    }
}

/// Parsing a string literal where a quoted label stands yields that label.
proof fn lemma_parse_strlit_here(t: Seq<char>, i: int, v: Seq<char>, rest: Seq<char>)
    requires
        0 <= i <= t.len(),
        suffix_of(t, i) == seq!['"'] + v + seq!['"'] + rest,
        valid_value(v),
    ensures
        spec_parse_strlit(t, i) == Some((v, i + v.len() + 2)),
        suffix_of(t, i + v.len() + 2) == rest,
{
    let a = seq!['"'] + v + seq!['"'];
    lemma_split(t, i, a, rest);
    assert(t[i + 0] == a[0]);
    assert forall|k: int| i + 1 <= k < i + 1 + v.len() implies #[trigger] t[k] != '"' by {
        let q = k - i;
        assert(t[i + q] == a[q]);
        assert(a[q] == v[q - 1]);
    }
    let w = (1 + v.len()) as int;
    assert(t[i + w] == a[w]);
    assert(t[i + 1 + v.len()] == '"');
    lemma_scan_str_run(t, i + 1, i + 1 + v.len());
    assert forall|q: int| 0 <= q < v.len() implies t.subrange(i + 1, i + 1 + v.len())[q] == v[q]
        by {
        let k = q + 1;
        assert(t[i + k] == a[k]);
    }
    assert(t.subrange(i + 1, i + 1 + v.len()) =~= v);
    assert(suffix_of(t, i + v.len() + 2) =~= rest);
}

/// Parsing a member list where rendered member lines stand — possibly after
/// leading whitespace, and always in front of the closing brace — yields
/// exactly the rendered labels.
proof fn lemma_members_round(t: Seq<char>, i: int, lead: Seq<char>, vs: Seq<Seq<char>>, rest: Seq<
    char,
>)
    requires
        0 <= i <= t.len(),
        suffix_of(t, i) == lead + spec_render_members(vs) + seq!['}'] + rest,
        forall|k: int| 0 <= k < lead.len() ==> is_ws_char(#[trigger] lead[k]),
        forall|q: int| 0 <= q < vs.len() ==> valid_value(#[trigger] vs[q]),
    ensures
        spec_parse_members(t, i) == Some(
            (vs, i + lead.len() + spec_render_members(vs).len()),
        ),
    decreases vs.len(),
{
    assert(lead + (spec_render_members(vs) + seq!['}'] + rest) =~= lead + spec_render_members(vs)
        + seq!['}'] + rest);
    lemma_split(t, i, lead, spec_render_members(vs) + seq!['}'] + rest);
    let i0 = i + lead.len();
    assert forall|k: int| i <= k < i0 implies is_ws_char(#[trigger] t[k]) by {
        let q = k - i;
        assert(t[i + q] == lead[q]);
    }
    if vs.len() == 0 {
        assert(spec_render_members(vs) == Seq::<char>::empty());
        assert(suffix_of(t, i0) =~= seq!['}'] + rest);
        lemma_split(t, i0, seq!['}'], rest);
        assert(t[i0] == '}');
        lemma_skip_ws_run(t, i, i0);
        assert(vs =~= Seq::<Seq<char>>::empty());
        assert(spec_parse_members(t, i) == Some((vs, i0)));
    } else {
        reveal_strlit("    \"");
        reveal_strlit("\",\n");
        let v0 = vs[0];
        let tail = vs.drop_first();
        assert(spec_render_members(vs) == spec_render_member(v0) + spec_render_members(tail));
        let r2 = spec_render_members(tail) + seq!['}'] + rest;
        assert(suffix_of(t, i0) =~= "    \""@ + (v0 + "\",\n"@ + r2));
        lemma_split(t, i0, "    \""@, v0 + "\",\n"@ + r2);
        assert forall|k: int| i <= k < i0 + 4 implies is_ws_char(#[trigger] t[k]) by {
            if k >= i0 {
                let q = k - i0;
                assert(t[i0 + q] == "    \""@[q]);
            }
        }
        assert(t[i0 + 4] == "    \""@[4]);
        lemma_skip_ws_run(t, i, i0 + 4);
        let j = i0 + 4;
        let rest2 = seq![',', '\n'] + r2;
        assert(suffix_of(t, j) =~= seq!['"'] + v0 + seq!['"'] + rest2) by {
            assert(suffix_of(t, i0).subrange(4, suffix_of(t, i0).len() as int) =~= suffix_of(
                t,
                j,
            ));
            assert(("    \""@ + (v0 + "\",\n"@ + r2)).subrange(
                4,
                ("    \""@ + (v0 + "\",\n"@ + r2)).len() as int,
            ) =~= seq!['"'] + v0 + seq!['"'] + rest2);
        }
        lemma_parse_strlit_here(t, j, v0, rest2);
        let k = j + v0.len() + 2;
        assert(suffix_of(t, k) =~= seq![','] + (seq!['\n'] + r2));
        lemma_split(t, k, seq![','], seq!['\n'] + r2);
        assert(t[k] == ',');
        assert(!is_ws_char(',') && ',' != '/');
        lemma_skip_ws_stop(t, k);
        assert(suffix_of(t, k + 1) =~= seq!['\n'] + spec_render_members(tail) + seq!['}'] + rest);
        assert(is_ws_char('\n'));
        assert forall|q: int| 0 <= q < tail.len() implies valid_value(#[trigger] tail[q]) by {
            assert(tail[q] == vs[q + 1]);
        }
        lemma_members_round(t, k + 1, seq!['\n'], tail, rest);
        assert(seq![v0] + tail =~= vs);
        assert(spec_parse_members(t, i) == Some(
            (vs, i + lead.len() + spec_render_members(vs).len()),
        ));
    }
}

/// `n` optionality markers.
spec fn qmarks(n: int) -> Seq<char>
    decreases n,
    when n >= 0
{
    if n <= 0 {
        Seq::empty()
    } else {
        qmarks(n - 1).push('?')
    }
}

proof fn lemma_qmarks_all(n: int)
    requires
        n >= 0,
    ensures
        qmarks(n).len() == n,
        forall|k: int| 0 <= k < n ==> qmarks(n)[k] == '?',
    decreases n,
{
    if n > 0 {
        lemma_qmarks_all(n - 1);
    }
}

/// How many `Optional` layers wrap the type.
spec fn opt_depth(t: Type) -> int
    decreases t,
{
    match t {
        Type::Optional(inner) => 1 + opt_depth(*inner),
        _ => 0,
    }
}

/// The type under all its `Optional` layers.
spec fn opt_core(t: Type) -> Type
    decreases t,
{
    match t {
        Type::Optional(inner) => opt_core(*inner),
        _ => t,
    }
}

/// Structural size of a type expression.
spec fn tsize(t: Type) -> nat
    decreases t,
{
    match t {
        Type::Optional(inner) => 1 + tsize(*inner),
        Type::Sequence(inner) => 1 + tsize(*inner),
        Type::StringMap(inner) => 1 + tsize(*inner),
        _ => 1,
    }
}

proof fn lemma_opt_core_props(t: Type)
    requires
        type_no_names(t),
    ensures
        opt_depth(t) >= 0,
        tsize(opt_core(t)) <= tsize(t),
        !(opt_core(t) is Optional),
        type_no_names(opt_core(t)),
    decreases t,
{
    match t {
        Type::Optional(inner) => {
            lemma_opt_core_props(*inner);
        },
        _ => {},
    }
}

/// A rendered type is its core's rendering followed by its optionality
/// markers.
proof fn lemma_render_peel(t: Type)
    ensures
        spec_type_udl(t) == spec_type_udl(opt_core(t)) + qmarks(opt_depth(t)),
    decreases t,
{
    reveal_strlit("?");
    match t {
        Type::Optional(inner) => {
            lemma_render_peel(*inner);
            let d = opt_depth(*inner);
            assert(d >= 0) by {
                lemma_opt_depth_nonneg(*inner);
            }
            lemma_qmarks_all(d + 1);
            lemma_qmarks_all(d);
            assert(spec_type_udl(opt_core(t)) + qmarks(d + 1) =~= (spec_type_udl(opt_core(
                *inner,
            )) + qmarks(d)) + "?"@) by {
                assert(qmarks(d + 1) == qmarks(d).push('?'));
                assert("?"@.len() == 1 && "?"@[0] == '?');
            }
        },
        _ => {
            assert(qmarks(0) == Seq::<char>::empty());
            assert(spec_type_udl(t) + qmarks(0) =~= spec_type_udl(t));
        },
    }
}

proof fn lemma_opt_depth_nonneg(t: Type)
    ensures
        opt_depth(t) >= 0,
    decreases t,
{
    match t {
        Type::Optional(inner) => {
            lemma_opt_depth_nonneg(*inner);
        },
        _ => {},
    }
}

/// Re-wrapping the core in its depth of `Optional` layers restores the type.
proof fn lemma_wrap_core(t: Type)
    ensures
        crate::idl::wrap_optional(opt_core(t), opt_depth(t)) == t,
    decreases t,
{
    match t {
        Type::Optional(inner) => {
            lemma_opt_depth_nonneg(*inner);
            lemma_wrap_core(*inner);
        },
        _ => {},
    }
}

/// Counting markers where exactly `n` of them stand yields `n`.
proof fn lemma_count_marks_here(t: Seq<char>, i: int, n: int, rest: Seq<char>)
    requires
        0 <= i <= t.len(),
        n >= 0,
        suffix_of(t, i) == qmarks(n) + rest,
        rest.len() == 0 || rest[0] != '?',
    ensures
        crate::idl::count_opt_marks(t, i) == n,
        suffix_of(t, i + n) == rest,
    decreases n,
{
    lemma_qmarks_all(n);
    lemma_split(t, i, qmarks(n), rest);
    if n == 0 {
        if rest.len() > 0 {
            assert(t[i] == rest[0]);
        } else {
            assert(i == t.len());
        }
    } else {
        assert(t[i] == qmarks(n)[0]);
        lemma_qmarks_all(n - 1);
        assert(suffix_of(t, i + 1) =~= qmarks(n - 1) + rest) by {
            lemma_suffix_cons(t, i);
            assert forall|k: int| 0 <= k < suffix_of(t, i + 1).len() implies #[trigger] suffix_of(
                t,
                i + 1,
            )[k] == (qmarks(n - 1) + rest)[k] by {
                let q = k + 1;
                assert(t[i + q] == (qmarks(n) + rest)[q]);
                assert(suffix_of(t, i + 1)[k] == t[i + 1 + k]);
            }
        }
        lemma_count_marks_here(t, i + 1, n - 1, rest);
    }
}

/// Parsing a base type expression where a core rendering stands yields that
/// core.
proof fn lemma_parse_type_base_here(t: Seq<char>, i: int, u: Type, rest: Seq<char>)
    requires
        0 <= i <= t.len(),
        suffix_of(t, i) == spec_type_udl(u) + rest,
        type_no_names(u),
        !(u is Optional),
        rest.len() == 0 || !is_ident_char(rest[0]),
    ensures
        crate::idl::spec_parse_type_base(t, i) == Some((u, i + spec_type_udl(u).len())),
    decreases tsize(u), 0int,
{
    reveal_strlit("u8");
    reveal_strlit("u16");
    reveal_strlit("u32");
    reveal_strlit("u64");
    reveal_strlit("i8");
    reveal_strlit("i16");
    reveal_strlit("i32");
    reveal_strlit("i64");
    reveal_strlit("f32");
    reveal_strlit("f64");
    reveal_strlit("boolean");
    reveal_strlit("string");
    reveal_strlit("sequence");
    reveal_strlit("record");
    reveal_strlit("sequence<");
    reveal_strlit("record<DOMString, ");
    reveal_strlit("<");
    reveal_strlit(">");
    reveal_strlit("<DOMString, ");
    lemma_prim_idents();
    lemma_prim_words_distinct();
    match u {
        Type::Sequence(inner) => {
            let ri = spec_type_udl(*inner);
            assert(suffix_of(t, i) =~= "sequence"@ + (seq!['<'] + ri + (seq!['>'] + rest)));
            assert(!is_ident_char('<'));
            lemma_parse_ident_here(t, i, "sequence"@, seq!['<'] + ri + (seq!['>'] + rest));
            let e = i + 8;
            assert(suffix_of(t, e) =~= seq!['<'] + (ri + (seq!['>'] + rest)));
            lemma_split(t, e, seq!['<'], ri + (seq!['>'] + rest));
            assert(t.subrange(e, e + 1) =~= "<"@);
            assert(spec_expect_lit(t, e, "<"@) == Some(e + 1));
            let a = e + 1;
            assert(suffix_of(t, a) == ri + (seq!['>'] + rest));
            assert(!is_ident_char('>') && '>' != '?');
            lemma_opt_core_props(u);
            lemma_parse_type_here(t, a, *inner, seq!['>'] + rest);
            let b = a + ri.len();
            lemma_split(t, a, ri, seq!['>'] + rest);
            lemma_split(t, b, seq!['>'], rest);
            assert(t.subrange(b, b + 1) =~= ">"@);
            assert(spec_expect_lit(t, b, ">"@) == Some(b + 1));
            assert(spec_type_udl(u).len() == 9 + ri.len() + 1);
            assert(crate::idl::spec_parse_type_base(t, i) == Some((u, i + spec_type_udl(u).len())));
        },
        Type::StringMap(inner) => {
            let ri = spec_type_udl(*inner);
            assert(suffix_of(t, i) =~= "record"@ + ("<DOMString, "@ + (ri + (seq!['>'] + rest))));
            assert(!is_ident_char('<'));
            lemma_parse_ident_here(t, i, "record"@, "<DOMString, "@ + (ri + (seq!['>'] + rest)));
            let e = i + 6;
            lemma_split(t, e, "<DOMString, "@, ri + (seq!['>'] + rest));
            assert(spec_expect_lit(t, e, "<DOMString, "@) == Some(e + 12));
            let a = e + 12;
            assert(suffix_of(t, a) == ri + (seq!['>'] + rest));
            assert(!is_ident_char('>') && '>' != '?');
            lemma_parse_type_here(t, a, *inner, seq!['>'] + rest);
            let b = a + ri.len();
            lemma_split(t, a, ri, seq!['>'] + rest);
            lemma_split(t, b, seq!['>'], rest);
            assert(t.subrange(b, b + 1) =~= ">"@);
            assert(spec_expect_lit(t, b, ">"@) == Some(b + 1));
            assert(spec_type_udl(u).len() == 18 + ri.len() + 1);
            assert(crate::idl::spec_parse_type_base(t, i) == Some((u, i + spec_type_udl(u).len())));
        },
        Type::Optional(_) => {
            assert(false);
        },
        Type::Enum(_) => {
            assert(false);
        },
        Type::Record(_) => {
            assert(false);
        },
        Type::Object(_) => {
            assert(false);
        },
        Type::Error(_) => {
            assert(false);
        },
        Type::CallbackInterface(_) => {
            assert(false);
        },
        Type::UInt8 => {
            lemma_prim_word(t, i, u, "u8"@, rest);
            assert(crate::idl::spec_parse_type_base(t, i) == Some((u, i + spec_type_udl(u).len())));
        },
        Type::UInt16 => {
            lemma_prim_word(t, i, u, "u16"@, rest);
            assert(crate::idl::spec_parse_type_base(t, i) == Some((u, i + spec_type_udl(u).len())));
        },
        Type::UInt32 => {
            lemma_prim_word(t, i, u, "u32"@, rest);
            assert(crate::idl::spec_parse_type_base(t, i) == Some((u, i + spec_type_udl(u).len())));
        },
        Type::UInt64 => {
            lemma_prim_word(t, i, u, "u64"@, rest);
            assert(crate::idl::spec_parse_type_base(t, i) == Some((u, i + spec_type_udl(u).len())));
        },
        Type::Int8 => {
            lemma_prim_word(t, i, u, "i8"@, rest);
            assert(crate::idl::spec_parse_type_base(t, i) == Some((u, i + spec_type_udl(u).len())));
        },
        Type::Int16 => {
            lemma_prim_word(t, i, u, "i16"@, rest);
            assert(crate::idl::spec_parse_type_base(t, i) == Some((u, i + spec_type_udl(u).len())));
        },
        Type::Int32 => {
            lemma_prim_word(t, i, u, "i32"@, rest);
            assert(crate::idl::spec_parse_type_base(t, i) == Some((u, i + spec_type_udl(u).len())));
        },
        Type::Int64 => {
            lemma_prim_word(t, i, u, "i64"@, rest);
            assert(crate::idl::spec_parse_type_base(t, i) == Some((u, i + spec_type_udl(u).len())));
        },
        Type::Float32 => {
            lemma_prim_word(t, i, u, "f32"@, rest);
            assert(crate::idl::spec_parse_type_base(t, i) == Some((u, i + spec_type_udl(u).len())));
        },
        Type::Float64 => {
            lemma_prim_word(t, i, u, "f64"@, rest);
            assert(crate::idl::spec_parse_type_base(t, i) == Some((u, i + spec_type_udl(u).len())));
        },
        Type::Boolean => {
            lemma_prim_word(t, i, u, "boolean"@, rest);
            assert(crate::idl::spec_parse_type_base(t, i) == Some((u, i + spec_type_udl(u).len())));
        },
        Type::String => {
            lemma_prim_word(t, i, u, "string"@, rest);
            assert(crate::idl::spec_parse_type_base(t, i) == Some((u, i + spec_type_udl(u).len())));
        },
    }
}

/// Each built-in spelling is a well-formed identifier.
proof fn lemma_prim_idents()
    ensures
        valid_ident("u8"@),
        valid_ident("u16"@),
        valid_ident("u32"@),
        valid_ident("u64"@),
        valid_ident("i8"@),
        valid_ident("i16"@),
        valid_ident("i32"@),
        valid_ident("i64"@),
        valid_ident("f32"@),
        valid_ident("f64"@),
        valid_ident("boolean"@),
        valid_ident("string"@),
        valid_ident("sequence"@),
        valid_ident("record"@),
{
    reveal_strlit("u8");
    reveal_strlit("u16");
    reveal_strlit("u32");
    reveal_strlit("u64");
    reveal_strlit("i8");
    reveal_strlit("i16");
    reveal_strlit("i32");
    reveal_strlit("i64");
    reveal_strlit("f32");
    reveal_strlit("f64");
    reveal_strlit("boolean");
    reveal_strlit("string");
    reveal_strlit("sequence");
    reveal_strlit("record");
    assert(valid_ident("u8"@)) by {
        assert forall|k: int| 0 <= k < "u8"@.len() implies is_ident_char(#[trigger] "u8"@[k]) by {}
    }
    assert(valid_ident("u16"@)) by {
        assert forall|k: int| 0 <= k < "u16"@.len() implies is_ident_char(
            #[trigger] "u16"@[k],
        ) by {}
    }
    assert(valid_ident("u32"@)) by {
        assert forall|k: int| 0 <= k < "u32"@.len() implies is_ident_char(
            #[trigger] "u32"@[k],
        ) by {}
    }
    assert(valid_ident("u64"@)) by {
        assert forall|k: int| 0 <= k < "u64"@.len() implies is_ident_char(
            #[trigger] "u64"@[k],
        ) by {}
    }
    assert(valid_ident("i8"@)) by {
        assert forall|k: int| 0 <= k < "i8"@.len() implies is_ident_char(#[trigger] "i8"@[k]) by {}
    }
    assert(valid_ident("i16"@)) by {
        assert forall|k: int| 0 <= k < "i16"@.len() implies is_ident_char(
            #[trigger] "i16"@[k],
        ) by {}
    }
    assert(valid_ident("i32"@)) by {
        assert forall|k: int| 0 <= k < "i32"@.len() implies is_ident_char(
            #[trigger] "i32"@[k],
        ) by {}
    }
    assert(valid_ident("i64"@)) by {
        assert forall|k: int| 0 <= k < "i64"@.len() implies is_ident_char(
            #[trigger] "i64"@[k],
        ) by {}
    }
    assert(valid_ident("f32"@)) by {
        assert forall|k: int| 0 <= k < "f32"@.len() implies is_ident_char(
            #[trigger] "f32"@[k],
        ) by {}
    }
    assert(valid_ident("f64"@)) by {
        assert forall|k: int| 0 <= k < "f64"@.len() implies is_ident_char(
            #[trigger] "f64"@[k],
        ) by {}
    }
    assert(valid_ident("boolean"@)) by {
        assert forall|k: int| 0 <= k < "boolean"@.len() implies is_ident_char(
            #[trigger] "boolean"@[k],
        ) by {}
    }
    assert(valid_ident("string"@)) by {
        assert forall|k: int| 0 <= k < "string"@.len() implies is_ident_char(
            #[trigger] "string"@[k],
        ) by {}
    }
    assert(valid_ident("sequence"@)) by {
        assert forall|k: int| 0 <= k < "sequence"@.len() implies is_ident_char(
            #[trigger] "sequence"@[k],
        ) by {}
    }
    assert(valid_ident("record"@)) by {
        assert forall|k: int| 0 <= k < "record"@.len() implies is_ident_char(
            #[trigger] "record"@[k],
        ) by {}
    }
}

/// The built-in spellings of equal length are pairwise distinct, so the
/// spelling dispatch picks exactly one.
proof fn lemma_prim_words_distinct()
    ensures
        "u8"@ != "i8"@,
        "u16"@ != "u32"@,
        "u16"@ != "u64"@,
        "u16"@ != "i16"@,
        "u16"@ != "i32"@,
        "u16"@ != "i64"@,
        "u16"@ != "f32"@,
        "u16"@ != "f64"@,
        "u32"@ != "u64"@,
        "u32"@ != "i16"@,
        "u32"@ != "i32"@,
        "u32"@ != "i64"@,
        "u32"@ != "f32"@,
        "u32"@ != "f64"@,
        "u64"@ != "i16"@,
        "u64"@ != "i32"@,
        "u64"@ != "i64"@,
        "u64"@ != "f32"@,
        "u64"@ != "f64"@,
        "i16"@ != "i32"@,
        "i16"@ != "i64"@,
        "i16"@ != "f32"@,
        "i16"@ != "f64"@,
        "i32"@ != "i64"@,
        "i32"@ != "f32"@,
        "i32"@ != "f64"@,
        "i64"@ != "f32"@,
        "i64"@ != "f64"@,
        "f32"@ != "f64"@,
        "string"@ != "record"@,
{
    reveal_strlit("u8");
    reveal_strlit("u16");
    reveal_strlit("u32");
    reveal_strlit("u64");
    reveal_strlit("i8");
    reveal_strlit("i16");
    reveal_strlit("i32");
    reveal_strlit("i64");
    reveal_strlit("f32");
    reveal_strlit("f64");
    reveal_strlit("string");
    reveal_strlit("record");
    assert("u8"@[0] == 'u' && "i8"@[0] == 'i');
    assert("u16"@[0] == 'u' && "u32"@[0] == 'u' && "u64"@[0] == 'u');
    assert("i16"@[0] == 'i' && "i32"@[0] == 'i' && "i64"@[0] == 'i');
    assert("f32"@[0] == 'f' && "f64"@[0] == 'f');
    assert("u16"@[1] == '1' && "u32"@[1] == '3' && "u64"@[1] == '6');
    assert("i16"@[1] == '1' && "i32"@[1] == '3' && "i64"@[1] == '6');
    assert("f32"@[1] == '3' && "f64"@[1] == '6');
    assert("string"@[0] == 's' && "record"@[0] == 'r');
}

/// The built-in spellings are identifiers, so an identifier scan reads each
/// back whole.
proof fn lemma_prim_word(t: Seq<char>, i: int, u: Type, w: Seq<char>, rest: Seq<char>)
    requires
        0 <= i <= t.len(),
        suffix_of(t, i) == spec_type_udl(u) + rest,
        spec_type_udl(u) == w,
        valid_ident(w),
        rest.len() == 0 || !is_ident_char(rest[0]),
    ensures
        spec_parse_ident(t, i) == Some((w, i + w.len())),
        i < i + w.len() <= t.len(),
{
    lemma_parse_ident_here(t, i, w, rest);
    assert(suffix_of(t, i).len() == t.len() - i);
}

/// Parsing a type expression where a full rendering stands yields that type.
proof fn lemma_parse_type_here(t: Seq<char>, i: int, u: Type, rest: Seq<char>)
    requires
        0 <= i <= t.len(),
        suffix_of(t, i) == spec_type_udl(u) + rest,
        type_no_names(u),
        rest.len() == 0 || (!is_ident_char(rest[0]) && rest[0] != '?'),
    ensures
        crate::idl::spec_parse_type(t, i) == Some((u, i + spec_type_udl(u).len())),
    decreases tsize(u), 1int,
{
    let c = opt_core(u);
    let d = opt_depth(u);
    lemma_opt_core_props(u);
    lemma_render_peel(u);
    lemma_qmarks_all(d);
    assert(suffix_of(t, i) =~= spec_type_udl(c) + (qmarks(d) + rest));
    if d > 0 {
        assert((qmarks(d) + rest)[0] == '?');
        assert(!is_ident_char('?'));
    }
    lemma_parse_type_base_here(t, i, c, qmarks(d) + rest);
    let j = i + spec_type_udl(c).len();
    lemma_split(t, i, spec_type_udl(c), qmarks(d) + rest);
    lemma_count_marks_here(t, j, d, rest);
    lemma_wrap_core(u);
    assert(crate::idl::spec_parse_type(t, i) == Some((u, i + spec_type_udl(u).len())));
}

/// The type-expression round-trip law: any type in the structural fragment
/// renders to text that the type parser reads back as the same type.
pub proof fn lemma_type_round_trip(t: Type)
    requires
        type_no_names(t),
    ensures
        crate::idl::spec_parse_type(spec_type_udl(t), 0) == Some(
            (t, spec_type_udl(t).len() as int),
        ),
{
    let s = spec_type_udl(t);
    assert(suffix_of(s, 0) =~= s + Seq::<char>::empty());
    lemma_parse_type_here(s, 0, t, Seq::empty());
}

/// A suffix starts with its first character.
proof fn lemma_suffix_cons(t: Seq<char>, x: int)
    requires
        0 <= x < t.len(),
    ensures
        suffix_of(t, x) =~= seq![t[x]] + suffix_of(t, x + 1),
{
}

/// Parsing one definition where a rendered error definition stands yields
/// exactly that definition's node.
proof fn lemma_def_round(t: Seq<char>, i: int, e: ErrorV, rest: Seq<char>)
    requires
        0 <= i <= t.len(),
        suffix_of(t, i) == "[Error]\nenum "@ + e.name + " {\n"@ + spec_render_members(e.values)
            + "};\n"@ + rest,
        wf_idl_error(e),
    ensures
        spec_parse_def(t, i) == Some(
            (
                IdlEnumV { name: e.name, values: e.values },
                i + 18 + e.name.len() + spec_render_members(e.values).len(),
            ),
        ),
        suffix_of(t, i + 18 + e.name.len() + spec_render_members(e.values).len()) == seq!['\n']
            + rest,
{
    reveal_strlit("[Error]\nenum ");
    reveal_strlit(" {\n");
    reveal_strlit("};\n");
    reveal_strlit("[");
    reveal_strlit("Error");
    reveal_strlit("]");
    reveal_strlit("enum");
    reveal_strlit("{");
    reveal_strlit(";");
    let l1 = "[Error]\nenum "@;
    let rm = spec_render_members(e.values);
    let r1 = e.name + " {\n"@ + rm + "};\n"@ + rest;
    assert(suffix_of(t, i) =~= l1 + r1);
    lemma_split(t, i, l1, r1);
    // the marker: `[`, `Error`, `]`
    assert(t.subrange(i, i + 1) =~= "["@) by {
        assert(t[i + 0] == l1[0]);
    }
    assert(spec_expect_lit(t, i, "["@) == Some(i + 1));
    assert(t[i + 1] == l1[1]);
    lemma_skip_ws_stop(t, i + 1);
    assert(t.subrange(i + 1, i + 6) =~= "Error"@) by {
        assert forall|q: int| 0 <= q < 5 implies t.subrange(i + 1, i + 6)[q] == "Error"@[q] by {
            let k = q + 1;
            assert(t[i + k] == l1[k]);
        }
    }
    assert(spec_expect_lit(t, i + 1, "Error"@) == Some(i + 6));
    assert(t[i + 6] == l1[6]);
    lemma_skip_ws_stop(t, i + 6);
    assert(t.subrange(i + 6, i + 7) =~= "]"@) by {
        assert(t[i + 6] == l1[6]);
    }
    assert(spec_expect_lit(t, i + 6, "]"@) == Some(i + 7));
    // the newline before `enum`
    assert(t[i + 7] == l1[7]);
    assert(t[i + 8] == l1[8]);
    lemma_skip_ws_run(t, i + 7, i + 8);
    assert(t.subrange(i + 8, i + 12) =~= "enum"@) by {
        assert forall|q: int| 0 <= q < 4 implies t.subrange(i + 8, i + 12)[q] == "enum"@[q] by {
            let k = q + 8;
            assert(t[i + k] == l1[k]);
        }
    }
    assert(spec_expect_lit(t, i + 8, "enum"@) == Some(i + 12));
    assert(t[i + 12] == l1[12]);
    // the space before the name, then the name itself
    let p = i + 13;
    assert(suffix_of(t, p) == r1);
    let r2 = " {\n"@ + rm + "};\n"@ + rest;
    assert(suffix_of(t, p) =~= e.name + r2);
    assert(!is_ws_char(e.name[0]) && e.name[0] != '/');
    lemma_skip_ws_run(t, i + 12, p);
    assert(!is_ident_char(r2[0]));
    lemma_parse_ident_here(t, p, e.name, r2);
    let q = p + e.name.len();
    // ` {` then the member lines
    assert(suffix_of(t, q) =~= " {\n"@ + (rm + "};\n"@ + rest));
    lemma_split(t, q, " {\n"@, rm + "};\n"@ + rest);
    assert(t[q] == ' ' && t[q + 1] == '{' && t[q + 2] == '\n') by {
        assert(t[q + 0] == " {\n"@[0]);
        assert(t[q + 1] == " {\n"@[1]);
        assert(t[q + 2] == " {\n"@[2]);
    }
    lemma_skip_ws_run(t, q, q + 1);
    assert(t.subrange(q + 1, q + 2) =~= "{"@);
    assert(spec_expect_lit(t, q + 1, "{"@) == Some(q + 2));
    let k1 = q + 2;
    lemma_suffix_cons(t, k1);
    assert(suffix_of(t, k1 + 1) == rm + "};\n"@ + rest);
    let rest3 = ";\n"@ + rest;
    assert("};\n"@ + rest =~= seq!['}'] + rest3) by {
        reveal_strlit(";\n");
    }
    reveal_strlit(";\n");
    assert(suffix_of(t, k1) =~= seq!['\n'] + rm + seq!['}'] + rest3);
    lemma_members_round(t, k1, seq!['\n'], e.values, rest3);
    let b = k1 + 1 + rm.len();
    assert(spec_parse_members(t, k1) == Some((e.values, b)));
    // the closing `};`
    assert(suffix_of(t, k1) =~= (seq!['\n'] + rm) + (seq!['}'] + rest3));
    lemma_split(t, k1, seq!['\n'] + rm, seq!['}'] + rest3);
    assert(suffix_of(t, b) == seq!['}'] + rest3);
    lemma_split(t, b, seq!['}'], rest3);
    assert(b < t.len());
    assert(suffix_of(t, b + 1) == rest3);
    assert(suffix_of(t, b + 1) =~= seq![';'] + (seq!['\n'] + rest));
    lemma_split(t, b + 1, seq![';'], seq!['\n'] + rest);
    assert(t[b + 1] == ';');
    lemma_skip_ws_stop(t, b + 1);
    assert(t.subrange(b + 1, b + 2) =~= ";"@);
    assert(spec_expect_lit(t, b + 1, ";"@) == Some(b + 2));
    assert(suffix_of(t, b + 2) == seq!['\n'] + rest);
    assert(spec_parse_def_tail(t, p) == Some((IdlEnumV { name: e.name, values: e.values }, b + 2)));
    assert(b + 2 == i + 18 + e.name.len() + rm.len());
}

/// Parsing every definition where rendered definitions stand — possibly
/// after leading whitespace, and running to the end of the text — yields
/// exactly the rendered definitions' nodes.
proof fn lemma_defs_round(t: Seq<char>, i: int, lead: Seq<char>, es: Seq<ErrorV>)
    requires
        0 <= i <= t.len(),
        suffix_of(t, i) == lead + spec_render_errors(es),
        forall|k: int| 0 <= k < lead.len() ==> is_ws_char(#[trigger] lead[k]),
        forall|q: int| 0 <= q < es.len() ==> wf_idl_error(#[trigger] es[q]),
    ensures
        spec_parse_defs(t, i) == Some(errors_to_enums(es)),
    decreases es.len(),
{
    lemma_split(t, i, lead, spec_render_errors(es));
    let i0 = i + lead.len();
    assert forall|k: int| i <= k < i0 implies is_ws_char(#[trigger] t[k]) by {
        let q = k - i;
        assert(t[i + q] == lead[q]);
    }
    if es.len() == 0 {
        assert(spec_render_errors(es) == Seq::<char>::empty());
        assert(i0 == t.len());
        lemma_skip_ws_run(t, i, t.len() as int);
        assert(errors_to_enums(es) =~= Seq::<IdlEnumV>::empty());
        assert(spec_parse_defs(t, i) == Some(errors_to_enums(es)));
    } else {
        reveal_strlit("\n[Error]\nenum ");
        reveal_strlit("[Error]\nenum ");
        let e0 = es[0];
        let tail = es.drop_first();
        assert(spec_render_errors(es) == spec_render_error(e0) + spec_render_errors(tail));
        assert(e0.docs.len() == 0);
        assert(spec_docstring(e0.docs, 0) == Seq::<char>::empty());
        let rm = spec_render_members(e0.values);
        let body = "[Error]\nenum "@ + e0.name + " {\n"@ + rm + "};\n"@ + spec_render_errors(
            tail,
        );
        assert(suffix_of(t, i0) =~= seq!['\n'] + body);
        lemma_split(t, i0, seq!['\n'], body);
        assert(t[i0] == '\n');
        assert(t[i0 + 1] == '[') by {
            reveal_strlit("[Error]\nenum ");
            assert(body[0] == '[');
        }
        lemma_skip_ws_run(t, i, i0 + 1);
        let j = i0 + 1;
        assert(suffix_of(t, j) == body);
        lemma_def_round(t, j, e0, spec_render_errors(tail));
        let k = j + 18 + e0.name.len() + rm.len();
        assert(spec_parse_def(t, j) == Some((IdlEnumV { name: e0.name, values: e0.values }, k)));
        assert(suffix_of(t, k) == seq!['\n'] + spec_render_errors(tail));
        assert forall|q: int| 0 <= q < tail.len() implies wf_idl_error(#[trigger] tail[q]) by {
            assert(tail[q] == es[q + 1]);
        }
        assert(k <= t.len()) by {
            assert(suffix_of(t, k).len() == t.len() - k);
        }
        lemma_defs_round(t, k, seq!['\n'], tail);
        assert(seq![IdlEnumV { name: e0.name, values: e0.values }] + errors_to_enums(tail)
            =~= errors_to_enums(es)) by {
            assert forall|q: int|
                0 <= q < es.len() implies (seq![IdlEnumV { name: e0.name, values: e0.values }]
                + errors_to_enums(tail))[q] == errors_to_enums(es)[q] by {
                if q > 0 {
                    assert(errors_to_enums(tail)[q - 1] == IdlEnumV {
                        name: tail[q - 1].name,
                        values: tail[q - 1].values,
                    });
                    assert(tail[q - 1] == es[q]);
                }
            }
        }
        assert(spec_parse_defs(t, i) == Some(errors_to_enums(es)));
    }
}

/// The round-trip law: an interface built purely from IDL input renders to
/// text that parses back to the very same interface — same namespace, same
/// definitions, same order. When the interface's names are unique (as
/// registration guarantees), re-registering the parsed definitions succeeds
/// as well.
pub proof fn lemma_udl_round_trip(civ: ComponentInterfaceV)
    requires
        wf_idl_interface(civ),
    ensures
        spec_parse_idl(spec_render_udl(civ)) is Some,
        build_interface(spec_parse_idl(spec_render_udl(civ))->Some_0) == civ,
        crate::interface::names_unique(civ.errors) ==> !crate::interface::has_dup(
            spec_parse_idl(spec_render_udl(civ))->Some_0.enums,
        ),
{
    reveal_strlit("namespace ");
    reveal_strlit("namespace");
    reveal_strlit(" {};\n");
    reveal_strlit("{");
    reveal_strlit("}");
    reveal_strlit(";");
    let t = spec_render_udl(civ);
    let ns = civ.namespace;
    let l1 = "namespace "@;
    let re = spec_render_errors(civ.errors);
    assert(t == l1 + ns + " {};\n"@ + re);
    assert(suffix_of(t, 0) =~= l1 + (ns + " {};\n"@ + re));
    lemma_split(t, 0, l1, ns + " {};\n"@ + re);
    assert(t[0] == 'n');
    lemma_skip_ws_stop(t, 0);
    assert(t.subrange(0, 9) =~= "namespace"@) by {
        assert forall|q: int| 0 <= q < 9 implies t.subrange(0, 9)[q] == "namespace"@[q] by {
            assert(t[0 + q] == l1[q]);
        }
    }
    assert(spec_expect_lit(t, 0, "namespace"@) == Some(9int));
    let k9: int = 9;
    assert(t[0 + k9] == l1[k9]);
    assert(t[9] == ' ');
    let p: int = 10;
    assert(suffix_of(t, p) == ns + " {};\n"@ + re);
    let r2 = " {};\n"@ + re;
    assert(suffix_of(t, p) =~= ns + r2);
    assert(!is_ws_char(ns[0]) && ns[0] != '/');
    lemma_skip_ws_run(t, 9, p);
    assert(!is_ident_char(r2[0]));
    lemma_parse_ident_here(t, p, ns, r2);
    let j = p + ns.len();
    lemma_split(t, j, " {};\n"@, re);
    assert(t[j] == ' ' && t[j + 1] == '{' && t[j + 2] == '}' && t[j + 3] == ';' && t[j + 4]
        == '\n') by {
        assert(t[j + 0] == " {};\n"@[0]);
        assert(t[j + 1] == " {};\n"@[1]);
        assert(t[j + 2] == " {};\n"@[2]);
        assert(t[j + 3] == " {};\n"@[3]);
        assert(t[j + 4] == " {};\n"@[4]);
    }
    lemma_skip_ws_run(t, j, j + 1);
    assert(t.subrange(j + 1, j + 2) =~= "{"@);
    assert(spec_expect_lit(t, j + 1, "{"@) == Some(j + 2));
    lemma_skip_ws_stop(t, j + 2);
    assert(t.subrange(j + 2, j + 3) =~= "}"@);
    assert(spec_expect_lit(t, j + 2, "}"@) == Some(j + 3));
    lemma_skip_ws_stop(t, j + 3);
    assert(t.subrange(j + 3, j + 4) =~= ";"@);
    assert(spec_expect_lit(t, j + 3, ";"@) == Some(j + 4));
    let p0 = j + 4;
    assert(suffix_of(t, p0) =~= seq!['\n'] + re) by {
        lemma_suffix_cons(t, p0);
    }
    assert(is_ws_char('\n'));
    lemma_defs_round(t, p0, seq!['\n'], civ.errors);
    let pv = ParsedIdlV { namespace: ns, enums: errors_to_enums(civ.errors) };
    assert(spec_parse_idl(t) == Some(pv));
    assert(enums_to_errors(pv.enums) =~= civ.errors) by {
        assert forall|q: int| 0 <= q < civ.errors.len() implies enums_to_errors(pv.enums)[q]
            == civ.errors[q] by {
            assert(pv.enums[q] == IdlEnumV {
                name: civ.errors[q].name,
                values: civ.errors[q].values,
            });
            assert(civ.errors[q].docs.len() == 0);
            assert(enums_to_errors(pv.enums)[q] =~= civ.errors[q]);
        }
    }
    assert(build_interface(pv) =~= civ);
    if crate::interface::names_unique(civ.errors) {
        assert forall|x: int| 0 <= x < pv.enums.len() implies !crate::interface::dup_before(
            pv.enums,
            x,
        ) by {
            if crate::interface::dup_before(pv.enums, x) {
                let y = choose|y: int| 0 <= y < x && pv.enums[y].name == pv.enums[x].name;
                assert(civ.errors[y].name == pv.enums[y].name);
                assert(civ.errors[x].name == pv.enums[x].name);
            }
        }
        crate::interface::lemma_first_dup_at(pv.enums, 0, pv.enums.len() as int);
    }
}

/// A parsed enumeration node as the front end can produce it.
pub open spec fn wf_enum_node(n: IdlEnumV) -> bool {
    &&& valid_ident(n.name)
    &&& forall|r: int| 0 <= r < n.values.len() ==> valid_value(#[trigger] n.values[r])
}

/// Every character an identifier scan covers is an identifier character.
proof fn lemma_scan_ident_chars(s: Seq<char>, i: int)
    requires
        0 <= i <= s.len(),
    ensures
        forall|k: int| i <= k < scan_ident_end(s, i) ==> is_ident_char(#[trigger] s[k]),
    decreases s.len() - i,
{
    if i < s.len() && is_ident_char(s[i]) {
        lemma_scan_ident_chars(s, i + 1);
        crate::idl::lemma_scan_ident_end_bounds(s, i + 1);
    }
}

/// No character an unterminated-literal scan covers is a quote.
proof fn lemma_scan_str_chars(s: Seq<char>, i: int)
    requires
        0 <= i <= s.len(),
    ensures
        forall|k: int| i <= k < scan_str_end(s, i) ==> (#[trigger] s[k]) != '"',
    decreases s.len() - i,
{
    if i < s.len() && s[i] != '"' {
        lemma_scan_str_chars(s, i + 1);
        crate::idl::lemma_scan_str_end_bounds(s, i + 1);
    }
}

/// Whatever the identifier parser accepts is a well-formed name.
proof fn lemma_parse_ident_wf(s: Seq<char>, i: int)
    requires
        0 <= i <= s.len(),
        spec_parse_ident(s, i) is Some,
    ensures
        ({
            let p = spec_parse_ident(s, i)->Some_0;
            valid_ident(p.0) && i < p.1 <= s.len()
        }),
{
    crate::idl::lemma_scan_ident_end_bounds(s, i);
    lemma_scan_ident_chars(s, i);
    let e = scan_ident_end(s, i);
    assert(is_ident_char(s[i]));
    assert(scan_ident_end(s, i) == scan_ident_end(s, i + 1));
    crate::idl::lemma_scan_ident_end_bounds(s, i + 1);
    let id = s.subrange(i, e);
    assert(id[0] == s[i + 0]);
    assert forall|q: int| 0 <= q < id.len() implies is_ident_char(#[trigger] id[q]) by {
        assert(id[q] == s[i + q]);
        assert(i <= i + q < e);
    }
}

/// Whatever the literal parser accepts is a quotable label.
proof fn lemma_parse_strlit_wf(s: Seq<char>, i: int)
    requires
        0 <= i <= s.len(),
        spec_parse_strlit(s, i) is Some,
    ensures
        ({
            let p = spec_parse_strlit(s, i)->Some_0;
            valid_value(p.0) && i < p.1 <= s.len()
        }),
{
    crate::idl::lemma_scan_str_end_bounds(s, i + 1);
    lemma_scan_str_chars(s, i + 1);
    let e0 = scan_str_end(s, i + 1);
    let v = s.subrange(i + 1, e0);
    assert forall|q: int| 0 <= q < v.len() implies (#[trigger] v[q]) != '"' by {
        assert(v[q] == s[i + 1 + q]);
        assert(i + 1 <= i + 1 + q < e0);
    }
}

/// Whatever the member-list parser accepts is a list of quotable labels.
proof fn lemma_parse_members_wf(s: Seq<char>, i: int)
    requires
        0 <= i <= s.len(),
        spec_parse_members(s, i) is Some,
    ensures
        ({
            let p = spec_parse_members(s, i)->Some_0;
            (forall|q: int| 0 <= q < p.0.len() ==> valid_value(#[trigger] p.0[q])) && i <= p.1
                <= s.len()
        }),
    decreases s.len() - i,
{
    lemma_skip_ws_bounds(s, i);
    let j = skip_ws(s, i);
    if j < s.len() && s[j] == '}' {
    } else {
        assert(spec_parse_strlit(s, j) is Some);
        lemma_parse_strlit_wf(s, j);
        let v = spec_parse_strlit(s, j)->Some_0.0;
        let k = spec_parse_strlit(s, j)->Some_0.1;
        lemma_skip_ws_bounds(s, k);
        let m = skip_ws(s, k);
        if m < s.len() && s[m] == ',' {
            assert(spec_parse_members(s, m + 1) is Some);
            lemma_parse_members_wf(s, m + 1);
            let rest = spec_parse_members(s, m + 1)->Some_0.0;
            let vals = spec_parse_members(s, i)->Some_0.0;
            assert(vals == seq![v] + rest);
            assert forall|q: int| 0 <= q < vals.len() implies valid_value(#[trigger] vals[q]) by {
                if q == 0 {
                    assert(vals[q] == v);
                } else {
                    assert(vals[q] == rest[q - 1]);
                }
            }
        } else if m < s.len() && s[m] == '}' {
            let vals = spec_parse_members(s, i)->Some_0.0;
            assert(vals == seq![v]);
            assert(vals[0] == v);
        } else {
            assert(false);
        }
    }
}

/// Whatever the definition parser accepts is a well-formed node.
proof fn lemma_parse_def_wf(s: Seq<char>, i: int)
    requires
        0 <= i <= s.len(),
        spec_parse_def(s, i) is Some,
    ensures
        ({
            let p = spec_parse_def(s, i)->Some_0;
            wf_enum_node(p.0) && i < p.1 <= s.len()
        }),
{
    let i1 = spec_expect_lit(s, i, "["@)->Some_0;
    lemma_skip_ws_bounds(s, i1);
    let i2 = skip_ws(s, i1);
    let i3 = spec_expect_lit(s, i2, "Error"@)->Some_0;
    lemma_skip_ws_bounds(s, i3);
    let i4 = skip_ws(s, i3);
    let i5 = spec_expect_lit(s, i4, "]"@)->Some_0;
    lemma_skip_ws_bounds(s, i5);
    let i6 = skip_ws(s, i5);
    let i7 = spec_expect_lit(s, i6, "enum"@)->Some_0;
    lemma_skip_ws_bounds(s, i7);
    let i8 = skip_ws(s, i7);
    assert(spec_parse_def_tail(s, i8) is Some);
    assert(spec_parse_ident(s, i8) is Some);
    lemma_parse_ident_wf(s, i8);
    let jj = spec_parse_ident(s, i8)->Some_0.1;
    lemma_skip_ws_bounds(s, jj);
    let k = skip_ws(s, jj);
    let k1 = spec_expect_lit(s, k, "{"@)->Some_0;
    assert(spec_parse_members(s, k1) is Some);
    lemma_parse_members_wf(s, k1);
    let b = spec_parse_members(s, k1)->Some_0.1;
    lemma_skip_ws_bounds(s, b + 1);
    let c = skip_ws(s, b + 1);
    assert(spec_expect_lit(s, c, ";"@) is Some);
}

/// Whatever the definitions parser accepts is a list of well-formed nodes.
proof fn lemma_parse_defs_wf(s: Seq<char>, i: int)
    requires
        0 <= i <= s.len(),
        spec_parse_defs(s, i) is Some,
    ensures
        ({
            let ds = spec_parse_defs(s, i)->Some_0;
            forall|q: int| 0 <= q < ds.len() ==> wf_enum_node(#[trigger] ds[q])
        }),
    decreases s.len() - i,
{
    lemma_skip_ws_bounds(s, i);
    let j = skip_ws(s, i);
    if j >= s.len() {
    } else {
        assert(spec_parse_def(s, j) is Some);
        lemma_parse_def_wf(s, j);
        let d = spec_parse_def(s, j)->Some_0.0;
        let k = spec_parse_def(s, j)->Some_0.1;
        assert(spec_parse_defs(s, k) is Some);
        lemma_parse_defs_wf(s, k);
        let rest = spec_parse_defs(s, k)->Some_0;
        let ds = spec_parse_defs(s, i)->Some_0;
        assert(ds == seq![d] + rest);
        assert forall|q: int| 0 <= q < ds.len() implies wf_enum_node(#[trigger] ds[q]) by {
            if q == 0 {
                assert(ds[q] == d);
            } else {
                assert(ds[q] == rest[q - 1]);
            }
        }
    }
}

/// Whatever the document parser accepts builds a well-formed interface:
/// names are identifiers, labels are quotable, and no definition carries
/// documentation — exactly the shape the round-trip law asks for.
pub proof fn lemma_parse_idl_wf(s: Seq<char>)
    requires
        spec_parse_idl(s) is Some,
    ensures
        wf_idl_interface(build_interface(spec_parse_idl(s)->Some_0)),
{
    lemma_skip_ws_bounds(s, 0);
    let i = skip_ws(s, 0);
    let i1 = spec_expect_lit(s, i, "namespace"@)->Some_0;
    lemma_skip_ws_bounds(s, i1);
    let i2 = skip_ws(s, i1);
    assert(spec_parse_ident(s, i2) is Some);
    lemma_parse_ident_wf(s, i2);
    let jj = spec_parse_ident(s, i2)->Some_0.1;
    lemma_skip_ws_bounds(s, jj);
    let k = skip_ws(s, jj);
    let k1 = spec_expect_lit(s, k, "{"@)->Some_0;
    lemma_skip_ws_bounds(s, k1);
    let k2 = skip_ws(s, k1);
    let k3 = spec_expect_lit(s, k2, "}"@)->Some_0;
    lemma_skip_ws_bounds(s, k3);
    let k4 = skip_ws(s, k3);
    let p = spec_expect_lit(s, k4, ";"@)->Some_0;
    assert(spec_parse_defs(s, p) is Some);
    lemma_parse_defs_wf(s, p);
    let pv = spec_parse_idl(s)->Some_0;
    let ci = build_interface(pv);
    assert forall|q: int| 0 <= q < ci.errors.len() implies wf_idl_error(#[trigger] ci.errors[
        q
    ]) by {
        assert(wf_enum_node(pv.enums[q]));
        assert(ci.errors[q] == enums_to_errors(pv.enums)[q]);
    }
}

/// The full pipeline round-trip law: a document the front end accepts
/// builds an interface that renders to text parsing back to that very
/// interface.
pub proof fn lemma_idl_pipeline_round_trip(s: Seq<char>)
    requires
        spec_parse_idl(s) is Some,
    ensures
        ({
            let ci = build_interface(spec_parse_idl(s)->Some_0);
            let t = spec_render_udl(ci);
            spec_parse_idl(t) is Some && build_interface(spec_parse_idl(t)->Some_0) == ci
        }),
{
    lemma_parse_idl_wf(s);
    lemma_udl_round_trip(build_interface(spec_parse_idl(s)->Some_0));
}

} // verus!

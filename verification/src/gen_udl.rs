//! The canonical-text backend.
//!
//! Renders a `ComponentInterface` back into interface-definition-language
//! text. This backend reproduces the full grammar the IDL front end accepts,
//! which is what makes the semantic model round-trippable: parsing the
//! rendered text yields the same model. The whole output is buffered in
//! memory; nothing is persisted here, so a failed render can never leave
//! partial output behind.

use vstd::prelude::*;
use vstd::string::StrSliceExecFns;
use vstd::string::StringExecFns;

use crate::error_def::Error;
use crate::error_def::ErrorV;
use crate::errors::CompileError;
use crate::interface::ComponentInterface;
use crate::interface::ComponentInterfaceV;
use crate::text::push_char;
use crate::types::Type;

verus! {

/// `n` space characters.
pub open spec fn spaces(n: nat) -> Seq<char>
    decreases n,
{
    if n == 0 {
        Seq::empty()
    } else {
        spaces((n - 1) as nat).push(' ')
    }
}

/// What the documentation filter produces: for every line, a newline, the
/// requested indent, a comment marker, and the line itself.
pub open spec fn spec_docstring(docs: Seq<Seq<char>>, indent: nat) -> Seq<char>
    decreases docs.len(),
{
    if docs.len() == 0 {
        Seq::empty()
    } else {
        seq!['\n'] + spaces(indent) + "//"@ + docs[0] + spec_docstring(docs.drop_first(), indent)
    }
}

pub proof fn lemma_docstring_snoc(docs: Seq<Seq<char>>, indent: nat)
    requires
        docs.len() > 0,
    ensures
        spec_docstring(docs, indent) == spec_docstring(docs.drop_last(), indent) + (seq!['\n']
            + spaces(indent) + "//"@ + docs.last()),
    decreases docs.len(),
{
    let tail = seq!['\n'] + spaces(indent) + "//"@ + docs.last();
    if docs.len() == 1 {
        assert(docs.drop_first().len() == 0);
        assert(docs.drop_last().len() == 0);
        assert(spec_docstring(docs.drop_first(), indent) == Seq::<char>::empty());
        assert(spec_docstring(docs.drop_last(), indent) == Seq::<char>::empty());
        assert(docs[0] == docs.last());
        assert(spec_docstring(docs.drop_last(), indent) + tail =~= spec_docstring(docs, indent));
    } else {
        let df = docs.drop_first();
        lemma_docstring_snoc(df, indent);
        assert(spec_docstring(docs, indent) == seq!['\n'] + spaces(indent) + "//"@ + docs[0]
            + spec_docstring(df, indent));
        assert(docs.drop_last().len() > 0);
        assert(spec_docstring(docs.drop_last(), indent) == seq!['\n'] + spaces(indent) + "//"@
            + docs.drop_last()[0] + spec_docstring(docs.drop_last().drop_first(), indent));
        assert(docs.drop_last().drop_first() =~= df.drop_last());
        assert(df.last() == docs.last());
        assert(docs.drop_last()[0] == docs[0]);
        assert(spec_docstring(docs.drop_last(), indent) + tail =~= spec_docstring(docs, indent));
    }
}

/// The IDL spelling of a `Type`.
pub open spec fn spec_type_udl(t: Type) -> Seq<char>
    decreases t,
{
    match t {
        Type::UInt8 => "u8"@,
        Type::UInt16 => "u16"@,
        Type::UInt32 => "u32"@,
        Type::UInt64 => "u64"@,
        Type::Int8 => "i8"@,
        Type::Int16 => "i16"@,
        Type::Int32 => "i32"@,
        Type::Int64 => "i64"@,
        Type::Float32 => "f32"@,
        Type::Float64 => "f64"@,
        Type::Boolean => "boolean"@,
        Type::String => "string"@,
        Type::Enum(name) => name@,
        Type::Record(name) => name@,
        Type::Object(name) => name@,
        Type::Error(name) => name@,
        Type::CallbackInterface(name) => name@,
        Type::Optional(inner) => spec_type_udl(*inner) + "?"@,
        Type::Sequence(inner) => "sequence<"@ + spec_type_udl(*inner) + ">"@,
        Type::StringMap(inner) => "record<DOMString, "@ + spec_type_udl(*inner) + ">"@,
    }
}

/// One rendered enum member line.
pub open spec fn spec_render_member(v: Seq<char>) -> Seq<char> {
    "    \""@ + v + "\",\n"@
}

/// The rendered member lines of an error enum, in order.
pub open spec fn spec_render_members(vs: Seq<Seq<char>>) -> Seq<char>
    decreases vs.len(),
{
    if vs.len() == 0 {
        Seq::empty()
    } else {
        spec_render_member(vs[0]) + spec_render_members(vs.drop_first())
    }
}

pub proof fn lemma_render_members_snoc(vs: Seq<Seq<char>>)
    requires
        vs.len() > 0,
    ensures
        spec_render_members(vs) == spec_render_members(vs.drop_last()) + spec_render_member(
            vs.last(),
        ),
    decreases vs.len(),
{
    if vs.len() == 1 {
        assert(vs.drop_first().len() == 0);
        assert(vs.drop_last().len() == 0);
        assert(spec_render_members(vs.drop_first()) == Seq::<char>::empty());
        assert(spec_render_members(vs.drop_last()) == Seq::<char>::empty());
        assert(vs[0] == vs.last());
        assert(spec_render_members(vs.drop_last()) + spec_render_member(vs.last())
            =~= spec_render_members(vs));
    } else {
        let df = vs.drop_first();
        lemma_render_members_snoc(df);
        assert(spec_render_members(vs) == spec_render_member(vs[0]) + spec_render_members(df));
        assert(vs.drop_last().len() > 0);
        assert(spec_render_members(vs.drop_last()) == spec_render_member(vs.drop_last()[0])
            + spec_render_members(vs.drop_last().drop_first()));
        assert(vs.drop_last().drop_first() =~= df.drop_last());
        assert(df.last() == vs.last());
        assert(vs.drop_last()[0] == vs[0]);
        assert(spec_render_members(vs.drop_last()) + spec_render_member(vs.last())
            =~= spec_render_members(vs));
    }
}

/// One rendered error definition: its documentation block, the `[Error]`
/// marker, and the enum declaration.
pub open spec fn spec_render_error(e: ErrorV) -> Seq<char> {
    spec_docstring(e.docs, 0) + "\n[Error]\nenum "@ + e.name + " {\n"@ + spec_render_members(
        e.values,
    ) + "};\n"@
}

/// All rendered error definitions, in registration order.
pub open spec fn spec_render_errors(es: Seq<ErrorV>) -> Seq<char>
    decreases es.len(),
{
    if es.len() == 0 {
        Seq::empty()
    } else {
        spec_render_error(es[0]) + spec_render_errors(es.drop_first())
    }
}

pub proof fn lemma_render_errors_snoc(es: Seq<ErrorV>)
    requires
        es.len() > 0,
    ensures
        spec_render_errors(es) == spec_render_errors(es.drop_last()) + spec_render_error(
            es.last(),
        ),
    decreases es.len(),
{
    if es.len() == 1 {
        assert(es.drop_first().len() == 0);
        assert(es.drop_last().len() == 0);
        assert(spec_render_errors(es.drop_first()) == Seq::<char>::empty());
        assert(spec_render_errors(es.drop_last()) == Seq::<char>::empty());
        assert(es[0] == es.last());
        assert(spec_render_errors(es.drop_last()) + spec_render_error(es.last())
            =~= spec_render_errors(es));
    } else {
        let df = es.drop_first();
        lemma_render_errors_snoc(df);
        assert(spec_render_errors(es) == spec_render_error(es[0]) + spec_render_errors(df));
        assert(es.drop_last().len() > 0);
        assert(spec_render_errors(es.drop_last()) == spec_render_error(es.drop_last()[0])
            + spec_render_errors(es.drop_last().drop_first()));
        assert(es.drop_last().drop_first() =~= df.drop_last());
        assert(df.last() == es.last());
        assert(es.drop_last()[0] == es[0]);
        assert(spec_render_errors(es.drop_last()) + spec_render_error(es.last())
            =~= spec_render_errors(es));
    }
}

/// A whole rendered document: the namespace declaration, then every
/// registered definition.
pub open spec fn spec_render_udl(ci: ComponentInterfaceV) -> Seq<char> {
    "namespace "@ + ci.namespace + " {};\n"@ + spec_render_errors(ci.errors)
}

/// Get the IDL syntax for representing a given api-level `Type`.
pub fn type_udl(type_: &Type) -> (r: Result<String, CompileError>)
    ensures
        r matches Ok(s) && s@ == spec_type_udl(*type_),
    decreases *type_,
{
    match type_ {
        Type::UInt8 => Ok(String::from_str("u8")),
        Type::UInt16 => Ok(String::from_str("u16")),
        Type::UInt32 => Ok(String::from_str("u32")),
        Type::UInt64 => Ok(String::from_str("u64")),
        Type::Int8 => Ok(String::from_str("i8")),
        Type::Int16 => Ok(String::from_str("i16")),
        Type::Int32 => Ok(String::from_str("i32")),
        Type::Int64 => Ok(String::from_str("i64")),
        Type::Float32 => Ok(String::from_str("f32")),
        Type::Float64 => Ok(String::from_str("f64")),
        Type::Boolean => Ok(String::from_str("boolean")),
        Type::String => Ok(String::from_str("string")),
        Type::Enum(name) => Ok(crate::text::clone_string(name)),
        Type::Record(name) => Ok(crate::text::clone_string(name)),
        Type::Object(name) => Ok(crate::text::clone_string(name)),
        Type::Error(name) => Ok(crate::text::clone_string(name)),
        Type::CallbackInterface(name) => Ok(crate::text::clone_string(name)),
        Type::Optional(inner) => {
            let s0 = match type_udl(inner) {
                Ok(x) => x,
                Err(e) => {
                    return Err(e);
                },
            };
            Ok(s0.concat("?"))
        },
        Type::Sequence(inner) => {
            let s0 = match type_udl(inner) {
                Ok(x) => x,
                Err(e) => {
                    return Err(e);
                },
            };
            Ok(String::from_str("sequence<").concat(s0.as_str()).concat(">"))
        },
        Type::StringMap(inner) => {
            let s0 = match type_udl(inner) {
                Ok(x) => x,
                Err(e) => {
                    return Err(e);
                },
            };
            Ok(String::from_str("record<DOMString, ").concat(s0.as_str()).concat(">"))
        },
    }
}

/// The IDL spelling of a return-type slot, with the explicit `void` spelling
/// when no type is present.
pub fn return_type_udl(type_: &Option<&Type>) -> (r: Result<String, CompileError>)
    ensures
        r matches Ok(s) && s@ == match *type_ {
            Option::None => "void"@,
            Option::Some(t) => spec_type_udl(*t),
        },
{
    match type_ {
        None => Ok(String::from_str("void")),
        Some(t) => type_udl(t),
    }
}

/// Render a documentation-comment block at the given indent level.
pub fn docstring(docs: &Vec<&str>, indent: &usize) -> (r: Result<String, CompileError>)
    ensures
        r matches Ok(s) && s@ == spec_docstring(docs.deep_view(), *indent as nat),
{
    let mut out = String::new();
    let mut i: usize = 0;
    let n = docs.len();
    while i < n
        invariant
            i <= n,
            n == docs@.len(),
            out@ == spec_docstring(docs.deep_view().take(i as int), *indent as nat),
        decreases n - i,
    {
        let ghost prefix = docs.deep_view().take(i as int);
        push_char(&mut out, '\n');
        append_spaces(&mut out, *indent);
        out.append("//");
        out.append(docs[i]);
        proof {
            let next = docs.deep_view().take(i + 1);
            lemma_docstring_snoc(next, *indent as nat);
            assert(next.drop_last() =~= prefix);
            assert(next.last() == docs.deep_view()[i as int]);
            assert(out@ =~= spec_docstring(prefix, *indent as nat) + (seq!['\n'] + spaces(
                *indent as nat,
            ) + "//"@ + docs.deep_view()[i as int]));
        }
        i += 1;
    }
    assert(docs.deep_view().take(n as int) =~= docs.deep_view());
    Ok(out)
}

/// Append `n` spaces.
fn append_spaces(out: &mut String, n: usize)
    ensures
        final(out)@ == old(out)@ + spaces(n as nat),
{
    let mut i: usize = 0;
    while i < n
        invariant
            i <= n,
            out@ == old(out)@ + spaces(i as nat),
        decreases n - i,
    {
        push_char(out, ' ');
        assert(out@ =~= old(out)@ + spaces((i + 1) as nat));
        i += 1;
    }
}

/// Render one error definition.
fn render_error_text(e: &Error) -> (r: String)
    ensures
        r@ == spec_render_error(e@),
{
    let dlines = e.docs();
    let indent: usize = 0;
    let mut out = match docstring(&dlines, &indent) {
        Ok(x) => x,
        Err(_) => String::new(),
    };
    out.append("\n[Error]\nenum ");
    out.append(e.name.as_str());
    out.append(" {\n");
    let n = e.values.len();
    let mut i: usize = 0;
    while i < n
        invariant
            i <= n,
            n == e.values@.len(),
            out@ == spec_docstring(e@.docs, 0) + "\n[Error]\nenum "@ + e@.name + " {\n"@
                + spec_render_members(e@.values.take(i as int)),
        decreases n - i,
    {
        let ghost prefix = e@.values.take(i as int);
        out.append("    \"");
        out.append(e.values[i].as_str());
        out.append("\",\n");
        proof {
            let next = e@.values.take(i + 1);
            lemma_render_members_snoc(next);
            assert(next.drop_last() =~= prefix);
            assert(next.last() == e@.values[i as int]);
            assert(e.values@[i as int]@ == e@.values[i as int]);
            assert(out@ =~= spec_docstring(e@.docs, 0) + "\n[Error]\nenum "@ + e@.name + " {\n"@
                + (spec_render_members(prefix) + spec_render_member(e@.values[i as int])));
        }
        i += 1;
    }
    assert(e@.values.take(n as int) =~= e@.values);
    out.append("};\n");
    assert(out@ =~= spec_render_error(e@));
    out
}

/// Render a whole interface.
fn render_interface(ci: &ComponentInterface) -> (r: String)
    ensures
        r@ == spec_render_udl(ci@),
{
    let mut out = String::from_str("namespace ");
    out.append(ci.namespace.as_str());
    out.append(" {};\n");
    let n = ci.errors.len();
    let mut i: usize = 0;
    while i < n
        invariant
            i <= n,
            n == ci.errors@.len(),
            out@ == "namespace "@ + ci@.namespace + " {};\n"@ + spec_render_errors(
                ci@.errors.take(i as int),
            ),
        decreases n - i,
    {
        let ghost prefix = ci@.errors.take(i as int);
        let etext = render_error_text(&ci.errors[i]);
        out.append(etext.as_str());
        proof {
            let next = ci@.errors.take(i + 1);
            lemma_render_errors_snoc(next);
            assert(next.drop_last() =~= prefix);
            assert(next.last() == ci@.errors[i as int]);
            assert(ci.errors@[i as int]@ == ci@.errors[i as int]);
            assert(out@ =~= "namespace "@ + ci@.namespace + " {};\n"@ + (spec_render_errors(prefix)
                + spec_render_error(ci@.errors[i as int])));
        }
        i += 1;
    }
    assert(ci@.errors.take(n as int) =~= ci@.errors);
    assert(out@ =~= spec_render_udl(ci@));
    out
}

/// The canonical-text template over a `ComponentInterface`.
pub struct UDLFile<'a> {
    ci: &'a ComponentInterface,
}

impl<'a> View for UDLFile<'a> {
    type V = ComponentInterfaceV;

    closed spec fn view(&self) -> ComponentInterfaceV {
        self.ci@
    }
}

impl<'a> UDLFile<'a> {
    /// A template over the given interface.
    pub fn new(ci: &'a ComponentInterface) -> (r: Self)
        ensures
            r@ == ci@,
    {
        Self { ci }
    }

    /// Render the whole document into one buffer.
    pub fn render(&self) -> (r: Result<String, CompileError>)
        ensures
            r matches Ok(s) && s@ == spec_render_udl(self@),
    {
        Ok(render_interface(self.ci))
    }
}

/// Generate canonical IDL text for the given `ComponentInterface`, as a string.
pub fn generate_udl_bindings(ci: &ComponentInterface) -> (r: Result<String, CompileError>)
    ensures
        r matches Ok(s) && s@ == spec_render_udl(ci@),
{
    UDLFile::new(ci).render()
}

} // verus!

//! The canonical semantic model of a component's public API.
//!
//! A `ComponentInterface` is an ordered registry of definitions plus the
//! declared namespace. It is created empty, populated by running front-end
//! syntax nodes through their converters, and queried read-only by every
//! backend thereafter. Definitions are owned exclusively by the interface;
//! types refer to them by name, never by pointer.

use vstd::prelude::*;

use crate::error_def::Error;
use crate::error_def::ErrorV;
use crate::errors::CompileError;
use crate::idl::IdlEnumV;
use crate::idl::ParsedIdlV;
use crate::idl::parse_idl;
use crate::idl::spec_parse_idl;
use crate::text::clone_string;
use crate::text::str_eq;
use crate::types::Type;

verus! {

/// The mathematical model of a [`ComponentInterface`].
#[verifier::ext_equal]
pub struct ComponentInterfaceV {
    pub namespace: Seq<char>,
    pub errors: Seq<ErrorV>,
}

/// The canonical in-memory model of a component's public API.
#[derive(Debug, Default)]
pub struct ComponentInterface {
    pub namespace: String,
    pub errors: Vec<Error>,
}

impl View for ComponentInterface {
    type V = ComponentInterfaceV;

    open spec fn view(&self) -> ComponentInterfaceV {
        ComponentInterfaceV { namespace: self.namespace@, errors: self.errors.deep_view() }
    }
}

/// The error definitions that a sequence of parsed enumeration nodes
/// registers: names and member labels verbatim, no documentation.
pub open spec fn enums_to_errors(ns: Seq<IdlEnumV>) -> Seq<ErrorV> {
    Seq::new(ns.len(), |i: int| ErrorV { name: ns[i].name, values: ns[i].values, docs: Seq::empty() })
}

/// The interface a parsed document builds when registration succeeds.
pub open spec fn build_interface(p: ParsedIdlV) -> ComponentInterfaceV {
    ComponentInterfaceV { namespace: p.namespace, errors: enums_to_errors(p.enums) }
}

/// Does the node at `j` repeat the name of an earlier node?
pub open spec fn dup_before(ns: Seq<IdlEnumV>, j: int) -> bool {
    exists|k: int| 0 <= k < j && ns[k].name == ns[j].name
}

/// The first position at or after `j` whose name repeats an earlier one, or
/// the sequence's length when there is none.
pub open spec fn first_dup(ns: Seq<IdlEnumV>, j: int) -> int
    decreases ns.len() - j,
    when 0 <= j <= ns.len()
{
    if j >= ns.len() {
        j
    } else if dup_before(ns, j) {
        j
    } else {
        first_dup(ns, j + 1)
    }
}

/// Does any node repeat the name of an earlier one?
pub open spec fn has_dup(ns: Seq<IdlEnumV>) -> bool {
    first_dup(ns, 0) < ns.len()
}

pub proof fn lemma_first_dup_at(ns: Seq<IdlEnumV>, a: int, m: int)
    requires
        0 <= a <= m <= ns.len(),
        forall|j: int| a <= j < m ==> !dup_before(ns, j),
        m == ns.len() || dup_before(ns, m),
    ensures
        first_dup(ns, a) == m,
    decreases m - a,
{
    if a < m {
        assert(!dup_before(ns, a));
        lemma_first_dup_at(ns, a + 1, m);
    }
}

/// The first named kind in a type, left to right and outside in, that does
/// not resolve to a registered definition of the matching kind and name.
pub open spec fn spec_first_unresolved(ci: ComponentInterfaceV, t: Type) -> Option<Seq<char>>
    decreases t,
{
    match t {
        Type::Enum(n) => Some(n@),
        Type::Record(n) => Some(n@),
        Type::Object(n) => Some(n@),
        Type::CallbackInterface(n) => Some(n@),
        Type::Error(n) => if spec_has_error(ci.errors, n@) {
            None
        } else {
            Some(n@)
        },
        Type::Optional(inner) => spec_first_unresolved(ci, *inner),
        Type::Sequence(inner) => spec_first_unresolved(ci, *inner),
        Type::StringMap(inner) => spec_first_unresolved(ci, *inner),
        _ => None,
    }
}

/// Is some error definition of this name registered?
pub open spec fn spec_has_error(errs: Seq<ErrorV>, name: Seq<char>) -> bool {
    exists|i: int| 0 <= i < errs.len() && errs[i].name == name
}

/// At most one registered definition per (kind, name) pair.
pub open spec fn names_unique(errs: Seq<ErrorV>) -> bool {
    forall|i: int, j: int| 0 <= i < j < errs.len() ==> errs[i].name != errs[j].name
}

/// The capability of converting one front-end syntax node into a definition,
/// given mutable access to the in-progress interface.
///
/// Each (front-end syntax, definition kind) pair implements this capability
/// independently; the interface never learns which front end produced a node.
/// The three spec functions pin down exactly when conversion succeeds and
/// what it produces or reports.
pub trait APIConverter<T>: Sized {
    /// Does conversion of this node succeed?
    spec fn convert_succeeds(&self) -> bool;

    /// What a successful conversion yields.
    spec fn convert_ok(&self, v: T) -> bool;

    /// What a failed conversion reports.
    spec fn convert_err(&self, e: CompileError) -> bool;

    /// Convert this syntax node into a definition value.
    fn convert(&self, ci: &mut ComponentInterface) -> (r: Result<T, CompileError>)
        ensures
            *final(ci) == *old(ci),
            r is Ok <==> self.convert_succeeds(),
            match r {
                Ok(v) => self.convert_ok(v),
                Err(e) => self.convert_err(e),
            },
    ;
}

impl ComponentInterface {
    /// An empty interface for the given namespace.
    pub fn new(namespace: String) -> (r: Self)
        ensures
            r@.namespace == namespace@,
            r@.errors == Seq::<ErrorV>::empty(),
            names_unique(r@.errors),
    {
        let r = ComponentInterface { namespace, errors: Vec::new() };
        assert(r@.errors =~= Seq::<ErrorV>::empty());
        r
    }

    /// Build a complete interface from interface-definition-language text.
    ///
    /// Parses the text, converts every declaration through the shared
    /// converter capability, and registers the results in declaration order.
    /// Fails with a syntax condition when the text does not parse, and with
    /// a duplicate-definition condition naming the first repeated name.
    pub fn from_webidl(idl: &str) -> (r: Result<ComponentInterface, CompileError>)
        ensures
            r is Ok <==> (spec_parse_idl(idl@) matches Some(p) && !has_dup(p.enums)),
            match r {
                Ok(ci) => (spec_parse_idl(idl@) matches Some(p) && ci@ == build_interface(p)
                    && names_unique(ci@.errors)),
                Err(e) => match e {
                    CompileError::Syntax { .. } => spec_parse_idl(idl@) is None,
                    CompileError::DuplicateDefinition { name } => (spec_parse_idl(idl@) matches
                    Some(p) && has_dup(p.enums) && name@ == p.enums[first_dup(p.enums, 0)].name),
                    _ => false,
                },
            },
    {
        let parsed = parse_idl(idl);
        let (ns, defs) = match parsed {
            None => {
                return Err(CompileError::Syntax { pos: 0 });
            },
            Some(x) => x,
        };
        let ghost dvs = defs.deep_view();
        let ghost pv = ParsedIdlV { namespace: ns@, enums: dvs };
        let mut ci = ComponentInterface::new(ns);
        let n = defs.len();
        let mut i: usize = 0;
        while i < n
            invariant
                i <= n,
                n == defs@.len(),
                dvs == defs.deep_view(),
                spec_parse_idl(idl@) == Some(pv),
                pv.enums == dvs,
                ci@.namespace == pv.namespace,
                ci@.errors == enums_to_errors(dvs.take(i as int)),
                forall|j: int| 0 <= j < i ==> !dup_before(dvs, j),
                names_unique(ci@.errors),
            decreases n - i,
        {
            let node = &defs[i];
            assert(node@ == dvs[i as int]);
            let e = match node.convert(&mut ci) {
                Ok(x) => x,
                Err(er) => {
                    return Err(er);
                },
            };
            let ghost ev = e@;
            let ghost prev = enums_to_errors(dvs.take(i as int));
            match ci.add_error_definition(e) {
                Ok(()) => {
                    proof {
                        assert(enums_to_errors(dvs.take(i + 1)) =~= prev.push(ev));
                        assert(!dup_before(dvs, i as int)) by {
                            if dup_before(dvs, i as int) {
                                let k = choose|k: int|
                                    0 <= k < i && dvs[k].name == dvs[i as int].name;
                                assert(prev[k].name == dvs[k].name);
                                assert(spec_has_error(prev, ev.name));
                            }
                        }
                    }
                },
                Err(er) => {
                    proof {
                        assert(spec_has_error(prev, ev.name));
                        let k = choose|k: int| 0 <= k < prev.len() && prev[k].name == ev.name;
                        assert(prev[k].name == dvs[k].name);
                        assert(dup_before(dvs, i as int));
                        lemma_first_dup_at(dvs, 0, i as int);
                    }
                    return Err(er);
                },
            }
            i += 1;
        }
        proof {
            assert(dvs.take(n as int) =~= dvs);
            lemma_first_dup_at(dvs, 0, n as int);
            assert(ci@ =~= build_interface(pv));
        }
        Ok(ci)
    }

    /// The namespace the component was declared under.
    pub fn namespace(&self) -> (r: &str)
        ensures
            r@ == self@.namespace,
    {
        self.namespace.as_str()
    }

    /// Register an error definition.
    ///
    /// Fails with a duplicate-definition condition when an error of the same
    /// name is already registered; registration order is preserved.
    pub fn add_error_definition(&mut self, defn: Error) -> (r: Result<(), CompileError>)
        ensures
            r is Ok <==> !spec_has_error(old(self)@.errors, defn@.name),
            match r {
                Ok(()) => final(self)@.namespace == old(self)@.namespace && final(self)@.errors
                    == old(self)@.errors.push(defn@),
                Err(e) => *final(self) == *old(self) && (e matches
                    CompileError::DuplicateDefinition { name } && name@ == defn@.name),
            },
            names_unique(old(self)@.errors) ==> names_unique(final(self)@.errors),
    {
        let n = self.errors.len();
        let mut i: usize = 0;
        while i < n
            invariant
                i <= n,
                n == self.errors.len(),
                forall|k: int| 0 <= k < i ==> self@.errors[k].name != defn@.name,
            decreases n - i,
        {
            let same = str_eq(self.errors[i].name.as_str(), defn.name.as_str());
            assert(self@.errors[i as int] == self.errors@[i as int].deep_view());
            if same {
                assert(spec_has_error(self@.errors, defn@.name));
                return Err(
                    CompileError::DuplicateDefinition { name: clone_string(&defn.name) },
                );
            }
            i += 1;
        }
        let ghost old_errs = self@.errors;
        let ghost dv = defn@;
        self.errors.push(defn);
        assert(self@.errors =~= old_errs.push(dv));
        Ok(())
    }

    /// The registered error definition of the given name, if any.
    pub fn get_error_definition(&self, name: &str) -> (r: Option<&Error>)
        ensures
            r is Some <==> spec_has_error(self@.errors, name@),
            match r {
                Some(e) => exists|i: int|
                    0 <= i < self@.errors.len() && self@.errors[i] == e@ && e@.name == name@,
                None => true,
            },
    {
        let n = self.errors.len();
        let mut i: usize = 0;
        while i < n
            invariant
                i <= n,
                n == self.errors.len(),
                forall|k: int| 0 <= k < i ==> self@.errors[k].name != name@,
            decreases n - i,
        {
            let same = str_eq(self.errors[i].name.as_str(), name);
            assert(self@.errors[i as int] == self.errors@[i as int].deep_view());
            if same {
                assert(spec_has_error(self@.errors, name@));
                return Some(&self.errors[i]);
            }
            i += 1;
        }
        None
    }

    /// Check that every named kind in a type resolves against the registry,
    /// reporting the first name (left to right, outside in) that does not.
    ///
    /// Name resolution is deferred to render time by design, since front
    /// ends may register definitions in a different order than their mutual
    /// references. A name resolves only when a definition of the matching
    /// kind is registered; this interface registers error definitions.
    pub fn resolve_type(&self, t: &Type) -> (r: Result<(), CompileError>)
        ensures
            r is Ok <==> spec_first_unresolved(self@, *t) is None,
            match r {
                Ok(()) => true,
                Err(e) => e matches CompileError::UnresolvedReference { name } && Some(name@)
                    == spec_first_unresolved(self@, *t),
            },
        decreases *t,
    {
        match t {
            Type::Enum(n) => Err(CompileError::UnresolvedReference { name: clone_string(n) }),
            Type::Record(n) => Err(CompileError::UnresolvedReference { name: clone_string(n) }),
            Type::Object(n) => Err(CompileError::UnresolvedReference { name: clone_string(n) }),
            Type::CallbackInterface(n) => Err(
                CompileError::UnresolvedReference { name: clone_string(n) },
            ),
            Type::Error(n) => {
                if self.get_error_definition(n.as_str()).is_some() {
                    Ok(())
                } else {
                    Err(CompileError::UnresolvedReference { name: clone_string(n) })
                }
            },
            Type::Optional(inner) => self.resolve_type(inner),
            Type::Sequence(inner) => self.resolve_type(inner),
            Type::StringMap(inner) => self.resolve_type(inner),
            _ => Ok(()),
        }
    }

    /// All registered error definitions, in registration order.
    pub fn iter_error_definitions(&self) -> (r: &Vec<Error>)
        ensures
            r.deep_view() == self@.errors,
    {
        &self.errors
    }
}

} // verus!

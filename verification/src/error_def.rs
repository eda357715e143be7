//! Error definitions for a `ComponentInterface`.
//!
//! Errors are declared in the interface-definition language as enums carrying
//! the `[Error]` marker, or in the host language as enums annotated with the
//! interface markers. On the FFI they are handled very differently from plain
//! enums: each variant is assigned an integer error code by its ordinal
//! position in the declaration.

use vstd::prelude::*;

use crate::errors::CompileError;
use crate::idl::IdlEnum;
use crate::interface::APIConverter;
use crate::interface::ComponentInterface;
use crate::text::clone_string;
use crate::text::clone_string_vec;

verus! {

/// The mathematical model of an [`Error`] definition.
#[verifier::ext_equal]
pub struct ErrorV {
    pub name: Seq<char>,
    pub values: Seq<Seq<char>>,
    pub docs: Seq<Seq<char>>,
}

/// An error that functions and methods of the component may signal.
///
/// `values` are the variant labels in declaration order (string labels, not
/// full enum values); the label's position determines its error code.
/// Variant-name uniqueness is not required here: duplicate labels register
/// as-is, a documented quirk of the current front ends.
#[derive(Debug, Clone, Default, Hash)]
pub struct Error {
    pub name: String,
    pub values: Vec<String>,
    pub docs: Vec<String>,
}

impl View for Error {
    type V = ErrorV;

    open spec fn view(&self) -> ErrorV {
        ErrorV { name: self.name@, values: self.values.deep_view(), docs: self.docs.deep_view() }
    }
}

impl DeepView for Error {
    type V = ErrorV;

    open spec fn deep_view(&self) -> ErrorV {
        self.view()
    }
}

impl Error {
    /// The declared name of the error.
    pub fn name(&self) -> (r: &str)
        ensures
            r@ == self@.name,
    {
        self.name.as_str()
    }

    /// The variant labels, in declaration order.
    pub fn values(&self) -> (r: Vec<&str>)
        ensures
            r.deep_view() == self@.values,
    {
        let mut r: Vec<&str> = Vec::new();
        let mut i: usize = 0;
        while i < self.values.len()
            invariant
                i <= self.values.len(),
                r@.len() == i,
                forall|k: int| 0 <= k < i ==> r@[k]@ == self@.values[k],
            decreases self.values.len() - i,
        {
            r.push(self.values[i].as_str());
            i += 1;
        }
        assert forall|k: int| 0 <= k < r@.len() implies r.deep_view()[k] == self@.values[k] by {
            assert(r@[k]@ == self@.values[k]);
        }
        assert(r.deep_view() =~= self@.values);
        r
    }

    /// The merged documentation lines for the error.
    pub fn docs(&self) -> (r: Vec<&str>)
        ensures
            r.deep_view() == self@.docs,
    {
        let mut r: Vec<&str> = Vec::new();
        let mut i: usize = 0;
        while i < self.docs.len()
            invariant
                i <= self.docs.len(),
                r@.len() == i,
                forall|k: int| 0 <= k < i ==> r@[k]@ == self@.docs[k],
            decreases self.docs.len() - i,
        {
            r.push(self.docs[i].as_str());
            i += 1;
        }
        assert forall|k: int| 0 <= k < r@.len() implies r.deep_view()[k] == self@.docs[k] by {
            assert(r@[k]@ == self@.docs[k]);
        }
        assert(r.deep_view() =~= self@.docs);
        r
    }
}

/// Conversion of an enumeration declared with the `[Error]` marker in the
/// interface-definition language. Every member label becomes a variant name
/// verbatim — duplicates included — and no documentation is attached on
/// this path.
impl APIConverter<Error> for IdlEnum {
    open spec fn convert_succeeds(&self) -> bool {
        true
    }

    open spec fn convert_ok(&self, v: Error) -> bool {
        v@ == ErrorV { name: self@.name, values: self@.values, docs: Seq::empty() }
    }

    open spec fn convert_err(&self, e: CompileError) -> bool {
        false
    }

    fn convert(&self, ci: &mut ComponentInterface) -> (r: Result<Error, CompileError>) {
        let e = Error {
            name: clone_string(&self.name),
            values: clone_string_vec(&self.values),
            docs: Vec::new(),
        };
        assert(e@ =~= ErrorV { name: self@.name, values: self@.values, docs: Seq::empty() });
        Ok(e)
    }
}

/// The duplicate-variant quirk, as a named law: conversion takes the member
/// labels verbatim, duplicates included. Strange, but currently allowed —
/// kept as observed behavior rather than silently fixed.
pub proof fn lemma_duplicate_variants_kept(n: IdlEnum, e: Error)
    requires
        <IdlEnum as APIConverter<Error>>::convert_ok(&n, e),
    ensures
        e@.values == n@.values,
        e@.values.len() == n@.values.len(),
{
}

} // verus!

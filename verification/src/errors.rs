//! The failure conditions a compilation can report.
//!
//! Every failure carries enough identifying information (definition name,
//! rule violated) that the operator can locate the offending source
//! construct. Failures are typed results, never silent defaults.

use vstd::prelude::*;
use vstd::string::StringExecFns;

verus! {

/// A fatal condition raised while compiling a component interface.
#[derive(Debug, PartialEq, Eq)]
pub enum CompileError {
    /// Malformed front-end input; `pos` is a character offset near the
    /// problem when one is known, and zero otherwise.
    Syntax { pos: usize },
    /// An error enum variant declared an explicit discriminant value.
    ExplicitDiscriminant { enum_name: String, variant: String },
    /// An error enum variant carries payload fields.
    VariantWithFields { enum_name: String, variant: String },
    /// A definition of the same kind and name is already registered.
    DuplicateDefinition { name: String },
    /// A named type does not resolve to any registered definition.
    UnresolvedReference { name: String },
    /// A backend failed to produce its output text.
    TemplateRenderFailed,
}

/// The operator-facing description of each condition.
pub open spec fn spec_message(e: CompileError) -> Seq<char> {
    match e {
        CompileError::Syntax { .. } => "Syntax error in interface definition"@,
        CompileError::ExplicitDiscriminant { enum_name, variant } => "Error enum `"@ + enum_name@
            + "` variant `"@ + variant@ + "`: explicit discriminant not supported"@,
        CompileError::VariantWithFields { enum_name, variant } => "Error enum `"@ + enum_name@
            + "` variant `"@ + variant@ + "`: variant cannot have fields"@,
        CompileError::DuplicateDefinition { name } => "Duplicate definition: `"@ + name@ + "`"@,
        CompileError::UnresolvedReference { name } => "Unresolved reference: `"@ + name@ + "`"@,
        CompileError::TemplateRenderFailed => "Template render failed"@,
    }
}

impl CompileError {
    /// The message an operator sees for this condition.
    pub fn message(&self) -> (r: String)
        ensures
            r@ == spec_message(*self),
    {
        match self {
            CompileError::Syntax { .. } => String::from_str("Syntax error in interface definition"),
            CompileError::ExplicitDiscriminant { enum_name, variant } => String::from_str(
                "Error enum `",
            ).concat(enum_name.as_str()).concat("` variant `").concat(variant.as_str()).concat(
                "`: explicit discriminant not supported",
            ),
            CompileError::VariantWithFields { enum_name, variant } => String::from_str(
                "Error enum `",
            ).concat(enum_name.as_str()).concat("` variant `").concat(variant.as_str()).concat(
                "`: variant cannot have fields",
            ),
            CompileError::DuplicateDefinition { name } => String::from_str(
                "Duplicate definition: `",
            ).concat(name.as_str()).concat("`"),
            CompileError::UnresolvedReference { name } => String::from_str(
                "Unresolved reference: `",
            ).concat(name.as_str()).concat("`"),
            CompileError::TemplateRenderFailed => String::from_str("Template render failed"),
        }
    }
}

} // verus!

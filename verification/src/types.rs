//! The closed set of value types an interface can use.
//!
//! A `Type` is self-contained and cheap to copy: user-defined kinds are
//! carried by name alone and resolved against the `ComponentInterface`
//! registry when they are needed, so values of mutually-referencing
//! definitions never hold live pointers to each other.

use vstd::prelude::*;

verus! {

/// A value type usable in an interface, as a closed variant set.
///
/// Composite kinds nest to arbitrary depth; named kinds (`Enum`, `Record`,
/// `Object`, `Error`, `CallbackInterface`) hold only the declared name of the
/// definition they refer to.
#[derive(PartialEq, Eq, Debug)]
pub enum Type {
    UInt8,
    UInt16,
    UInt32,
    UInt64,
    Int8,
    Int16,
    Int32,
    Int64,
    Float32,
    Float64,
    Boolean,
    String,
    Enum(String),
    Record(String),
    Object(String),
    Error(String),
    CallbackInterface(String),
    Optional(Box<Type>),
    Sequence(Box<Type>),
    StringMap(Box<Type>),
}

/// The wire representation a value takes when it crosses the FFI boundary.
#[derive(Clone, Copy, PartialEq, Eq, Structural, Debug)]
pub enum FfiType {
    UInt8,
    UInt16,
    UInt32,
    UInt64,
    Int8,
    Int16,
    Int32,
    Int64,
    Float32,
    Float64,
    /// A length-prefixed serialized byte buffer.
    RustBuffer,
    /// An opaque integer handle to an object living on the far side.
    Handle,
}

/// What `ffi_type` returns for each `Type` variant.
pub open spec fn spec_ffi_type(t: Type) -> FfiType
    decreases t,
{
    match t {
        Type::UInt8 => FfiType::UInt8,
        Type::UInt16 => FfiType::UInt16,
        Type::UInt32 => FfiType::UInt32,
        Type::UInt64 => FfiType::UInt64,
        Type::Int8 => FfiType::Int8,
        Type::Int16 => FfiType::Int16,
        Type::Int32 => FfiType::Int32,
        Type::Int64 => FfiType::Int64,
        Type::Float32 => FfiType::Float32,
        Type::Float64 => FfiType::Float64,
        Type::Boolean => FfiType::UInt8,
        Type::String => FfiType::RustBuffer,
        Type::Enum(_) => FfiType::UInt32,
        Type::Record(_) => FfiType::RustBuffer,
        Type::Object(_) => FfiType::Handle,
        Type::Error(_) => FfiType::Int32,
        Type::CallbackInterface(_) => FfiType::Handle,
        Type::Optional(_) => FfiType::RustBuffer,
        Type::Sequence(_) => FfiType::RustBuffer,
        Type::StringMap(_) => FfiType::RustBuffer,
    }
}

/// The FFI mapping: a total function over the `Type` variant set.
///
/// Scalar numeric and boolean kinds use their natural fixed-width wire
/// representation; strings, records, sequences, maps and optionals cross as
/// a serialized buffer; enums cross as their ordinal; errors as their error
/// code; objects and callback interfaces as an opaque handle.
pub fn ffi_type(t: &Type) -> (r: FfiType)
    ensures
        r == spec_ffi_type(*t),
{
    match t {
        Type::UInt8 => FfiType::UInt8,
        Type::UInt16 => FfiType::UInt16,
        Type::UInt32 => FfiType::UInt32,
        Type::UInt64 => FfiType::UInt64,
        Type::Int8 => FfiType::Int8,
        Type::Int16 => FfiType::Int16,
        Type::Int32 => FfiType::Int32,
        Type::Int64 => FfiType::Int64,
        Type::Float32 => FfiType::Float32,
        Type::Float64 => FfiType::Float64,
        Type::Boolean => FfiType::UInt8,
        Type::String => FfiType::RustBuffer,
        Type::Enum(_) => FfiType::UInt32,
        Type::Record(_) => FfiType::RustBuffer,
        Type::Object(_) => FfiType::Handle,
        Type::Error(_) => FfiType::Int32,
        Type::CallbackInterface(_) => FfiType::Handle,
        Type::Optional(_) => FfiType::RustBuffer,
        Type::Sequence(_) => FfiType::RustBuffer,
        Type::StringMap(_) => FfiType::RustBuffer,
    }
}

} // verus!

//! Resolution of type names written with the classic IDL spellings as well as the explicit-width ones.

use vstd::prelude::*;
use crate::hir::PrimitiveTy;
use crate::text::str_eq;

verus! {

/// The primitive type a type name spells, if it spells one.
pub open spec fn spec_resolve_primitive(name: Seq<char>) -> Option<PrimitiveTy> {
    if name == "boolean"@ {
        Some(PrimitiveTy::Bool)
    } else if name == "octet"@ {
        Some(PrimitiveTy::UInt8)
    } else if name == "char"@ {
        Some(PrimitiveTy::Char)
    } else if name == "wchar"@ {
        Some(PrimitiveTy::WChar)
    } else if name == "short"@ {
        Some(PrimitiveTy::Int16)
    } else if name == "long"@ {
        Some(PrimitiveTy::Int32)
    } else if name == "long long"@ {
        Some(PrimitiveTy::Int64)
    } else if name == "unsigned short"@ {
        Some(PrimitiveTy::UInt16)
    } else if name == "unsigned long"@ {
        Some(PrimitiveTy::UInt32)
    } else if name == "unsigned long long"@ {
        Some(PrimitiveTy::UInt64)
    } else if name == "float"@ {
        Some(PrimitiveTy::Float32)
    } else if name == "double"@ {
        Some(PrimitiveTy::Float64)
    } else if name == "long double"@ {
        Some(PrimitiveTy::Float128)
    } else if name == "int8"@ {
        Some(PrimitiveTy::Int8)
    } else if name == "uint8"@ {
        Some(PrimitiveTy::UInt8)
    } else if name == "int16"@ {
        Some(PrimitiveTy::Int16)
    } else if name == "uint16"@ {
        Some(PrimitiveTy::UInt16)
    } else if name == "int32"@ {
        Some(PrimitiveTy::Int32)
    } else if name == "uint32"@ {
        Some(PrimitiveTy::UInt32)
    } else if name == "int64"@ {
        Some(PrimitiveTy::Int64)
    } else if name == "uint64"@ {
        Some(PrimitiveTy::UInt64)
    } else {
        None
    }
}

/// Map a primitive type name (classic or explicit-width spelling) to its type.
pub fn resolve_primitive(name: &str) -> (r: Option<PrimitiveTy>)
    ensures
        r == spec_resolve_primitive(name@),
{
    if str_eq(name, "boolean") {
        Some(PrimitiveTy::Bool)
    } else if str_eq(name, "octet") {
        Some(PrimitiveTy::UInt8)
    } else if str_eq(name, "char") {
        Some(PrimitiveTy::Char)
    } else if str_eq(name, "wchar") {
        Some(PrimitiveTy::WChar)
    } else if str_eq(name, "short") {
        Some(PrimitiveTy::Int16)
    } else if str_eq(name, "long") {
        Some(PrimitiveTy::Int32)
    } else if str_eq(name, "long long") {
        Some(PrimitiveTy::Int64)
    } else if str_eq(name, "unsigned short") {
        Some(PrimitiveTy::UInt16)
    } else if str_eq(name, "unsigned long") {
        Some(PrimitiveTy::UInt32)
    } else if str_eq(name, "unsigned long long") {
        Some(PrimitiveTy::UInt64)
    } else if str_eq(name, "float") {
        Some(PrimitiveTy::Float32)
    } else if str_eq(name, "double") {
        Some(PrimitiveTy::Float64)
    } else if str_eq(name, "long double") {
        Some(PrimitiveTy::Float128)
    } else if str_eq(name, "int8") {
        Some(PrimitiveTy::Int8)
    } else if str_eq(name, "uint8") {
        Some(PrimitiveTy::UInt8)
    } else if str_eq(name, "int16") {
        Some(PrimitiveTy::Int16)
    } else if str_eq(name, "uint16") {
        Some(PrimitiveTy::UInt16)
    } else if str_eq(name, "int32") {
        Some(PrimitiveTy::Int32)
    } else if str_eq(name, "uint32") {
        Some(PrimitiveTy::UInt32)
    } else if str_eq(name, "int64") {
        Some(PrimitiveTy::Int64)
    } else if str_eq(name, "uint64") {
        Some(PrimitiveTy::UInt64)
    } else {
        None
    }
}

} // verus!

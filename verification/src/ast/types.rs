use vstd::prelude::*;

use super::registry::RegistryStatus;
use crate::text::str_eq;

verus! {

/// The types the language provides without a declaration.
#[derive(Clone, Copy, Debug, PartialEq, Eq, Structural)]
pub enum BuiltinType {
    Int,
    Bool,
    String,
    Buffer,
    Array,
    MapType,
}

#[derive(Clone, Copy, Debug)]
pub struct BuiltinTypeSpec {
    pub name: &'static str,
    pub status: RegistryStatus,
}

/// The source name of each built-in type.
pub open spec fn builtin_type_name(ty: BuiltinType) -> Seq<char> {
    match ty {
        BuiltinType::Int => "Int"@,
        BuiltinType::Bool => "Bool"@,
        BuiltinType::String => "String"@,
        BuiltinType::Buffer => "Buffer"@,
        BuiltinType::Array => "Array"@,
        BuiltinType::MapType => "Map"@,
    }
}

impl BuiltinType {
    pub fn spec(self) -> (spec: BuiltinTypeSpec)
        ensures
            spec.name@ == builtin_type_name(self),
            spec.status == RegistryStatus::Active,
    {
        match self {
            BuiltinType::Int => BuiltinTypeSpec { name: "Int", status: RegistryStatus::Active },
            BuiltinType::Bool => BuiltinTypeSpec { name: "Bool", status: RegistryStatus::Active },
            BuiltinType::String => BuiltinTypeSpec { name: "String", status: RegistryStatus::Active },
            BuiltinType::Buffer => BuiltinTypeSpec { name: "Buffer", status: RegistryStatus::Active },
            BuiltinType::Array => BuiltinTypeSpec { name: "Array", status: RegistryStatus::Active },
            BuiltinType::MapType => BuiltinTypeSpec { name: "Map", status: RegistryStatus::Active },
        }
    }
}

/// The built-in type whose source name is `name`.
pub open spec fn spec_lookup_builtin_type(name: Seq<char>) -> Option<BuiltinType> {
    if name == "Int"@ {
        Some(BuiltinType::Int)
    } else if name == "Bool"@ {
        Some(BuiltinType::Bool)
    } else if name == "String"@ {
        Some(BuiltinType::String)
    } else if name == "Buffer"@ {
        Some(BuiltinType::Buffer)
    } else if name == "Array"@ {
        Some(BuiltinType::Array)
    } else if name == "Map"@ {
        Some(BuiltinType::MapType)
    } else {
        None
    }
}

pub fn lookup_builtin_type(name: &str) -> (ty: Option<BuiltinType>)
    ensures
        ty == spec_lookup_builtin_type(name@),
{
    if str_eq(name, "Int") {
        Some(BuiltinType::Int)
    } else if str_eq(name, "Bool") {
        Some(BuiltinType::Bool)
    } else if str_eq(name, "String") {
        Some(BuiltinType::String)
    } else if str_eq(name, "Buffer") {
        Some(BuiltinType::Buffer)
    } else if str_eq(name, "Array") {
        Some(BuiltinType::Array)
    } else if str_eq(name, "Map") {
        Some(BuiltinType::MapType)
    } else {
        None
    }
}

} // verus!

use vstd::prelude::*;

use super::registry::RegistryStatus;
use crate::text::str_eq;

verus! {

/// The operations the compiler provides without a declaration.
#[derive(Clone, Copy, Debug, PartialEq, Eq, Structural)]
pub enum IntrinsicKind {
    Append,
    Print,
    Drop,
}

/// How an intrinsic is named and called.
#[derive(Clone, Copy, Debug)]
pub struct IntrinsicSpec {
    pub name: &'static str,
    pub parameters: &'static [&'static str],
    pub status: RegistryStatus,
}

/// The source name of each intrinsic.
pub open spec fn intrinsic_name(kind: IntrinsicKind) -> Seq<char> {
    match kind {
        IntrinsicKind::Append => "append"@,
        IntrinsicKind::Print => "print"@,
        IntrinsicKind::Drop => "drop"@,
    }
}

/// The parameter names of each intrinsic, in call order.
pub open spec fn intrinsic_parameters(kind: IntrinsicKind) -> Seq<Seq<char>> {
    match kind {
        IntrinsicKind::Append => seq!["handle"@, "byte"@],
        IntrinsicKind::Print => seq!["value"@],
        IntrinsicKind::Drop => seq!["binding"@],
    }
}

impl IntrinsicKind {
    pub fn spec(self) -> (spec: IntrinsicSpec)
        ensures
            spec.name@ == intrinsic_name(self),
            spec.parameters@.len() == intrinsic_parameters(self).len(),
            forall|i: int|
                0 <= i < spec.parameters@.len() ==> #[trigger] spec.parameters@[i]@
                    == intrinsic_parameters(self)[i],
            spec.status == RegistryStatus::Active,
    {
        match self {
            IntrinsicKind::Append => {
                let parameters: &'static [&'static str] = &["handle", "byte"];
                IntrinsicSpec { name: "append", parameters, status: RegistryStatus::Active }
            },
            IntrinsicKind::Print => {
                let parameters: &'static [&'static str] = &["value"];
                IntrinsicSpec { name: "print", parameters, status: RegistryStatus::Active }
            },
            IntrinsicKind::Drop => {
                let parameters: &'static [&'static str] = &["binding"];
                IntrinsicSpec { name: "drop", parameters, status: RegistryStatus::Active }
            },
        }
    }
}

/// The intrinsic whose source name is `name`.
pub open spec fn spec_lookup_intrinsic(name: Seq<char>) -> Option<IntrinsicKind> {
    if name == "append"@ {
        Some(IntrinsicKind::Append)
    } else if name == "print"@ {
        Some(IntrinsicKind::Print)
    } else if name == "drop"@ {
        Some(IntrinsicKind::Drop)
    } else {
        None
    }
}

pub fn lookup_intrinsic(name: &str) -> (kind: Option<IntrinsicKind>)
    ensures
        kind == spec_lookup_intrinsic(name@),
{
    if str_eq(name, "append") {
        Some(IntrinsicKind::Append)
    } else if str_eq(name, "print") {
        Some(IntrinsicKind::Print)
    } else if str_eq(name, "drop") {
        Some(IntrinsicKind::Drop)
    } else {
        None
    }
}

/// The intrinsics that may be called like a verb: `append` and `print`, not `drop`.
pub open spec fn spec_lookup_call_intrinsic(name: Seq<char>) -> Option<IntrinsicKind> {
    match spec_lookup_intrinsic(name) {
        Some(IntrinsicKind::Drop) => None,
        other => other,
    }
}

pub fn lookup_call_intrinsic(name: &str) -> (kind: Option<IntrinsicKind>)
    ensures
        kind == spec_lookup_call_intrinsic(name@),
{
    match lookup_intrinsic(name) {
        Some(IntrinsicKind::Append) | Some(IntrinsicKind::Print) => lookup_intrinsic(name),
        Some(IntrinsicKind::Drop) | None => None,
    }
}

} // verus!

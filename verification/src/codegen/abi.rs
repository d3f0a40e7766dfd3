use vstd::prelude::*;

use crate::ast::{BuiltinType, ExternalVerbDecl, Param, VerbDecl, builtin_type_name, lookup_builtin_type, spec_lookup_builtin_type};
use crate::text::{concat, message_with_text};

use super::generic_layout::{Definitions, find_enum, find_struct};
use super::layout::{LayoutRegistry, NativeType, native_layout_spec};

verus! {

/// Why a verb cannot be called through the native calling convention.
#[derive(Debug)]
pub struct NativeAbiError(pub String);

impl NativeAbiError {
    pub open spec fn spec_message(&self) -> Seq<char> {
        self.0@
    }

    pub fn message(&self) -> (message: String)
        ensures
            message@ == self.spec_message(),
    {
        self.0.clone()
    }
}

/// The native type of a value of the type named `name`: a built-in scalar, string or buffer,
/// else the last struct of that name, else the last enum of that name.
pub open spec fn spec_native_type(definitions: Definitions, name: Seq<char>) -> Option<NativeType> {
    match spec_lookup_builtin_type(name) {
        Some(BuiltinType::Int) | Some(BuiltinType::Bool) => Some(NativeType::Int),
        Some(BuiltinType::String) => Some(NativeType::String),
        Some(BuiltinType::Buffer) => Some(NativeType::Buffer),
        Some(_) => None,
        None => {
            let s = find_struct(definitions.structs, name);
            let e = find_enum(definitions.enums, name);
            if s >= 0 {
                Some(NativeType::Struct(s as usize))
            } else if e >= 0 {
                Some(NativeType::Enum(e as usize))
            } else {
                None
            }
        },
    }
}

/// The native type of the type named `name`, under the layouts of a program.
pub fn native_type_for_name(name: &str, layouts: &LayoutRegistry) -> (ty: Option<NativeType>)
    ensures
        ty == spec_native_type(layouts.spec_definitions(), name@),
{
    if let Some(builtin) = lookup_builtin_type(name) {
        return match builtin {
            BuiltinType::Int | BuiltinType::Bool => Some(NativeType::Int),
            BuiltinType::String => Some(NativeType::String),
            BuiltinType::Buffer => Some(NativeType::Buffer),
            BuiltinType::Array | BuiltinType::MapType => None,
        };
    }
    if let Some(id) = layouts.id_for(name) {
        return Some(NativeType::Struct(id));
    }
    match layouts.enum_id_for(name) {
        Some(id) => Some(NativeType::Enum(id)),
        None => None,
    }
}

/// The position of the first parameter whose type has no native representation, or -1.
pub open spec fn first_unsupported_parameter(definitions: Definitions, params: Seq<Param>) -> int
    decreases params.len(),
{
    if params.len() == 0 {
        -1
    } else if first_unsupported_parameter(definitions, params.drop_last()) >= 0 {
        first_unsupported_parameter(definitions, params.drop_last())
    } else if spec_native_type(definitions, params.last().ty.name@) is None {
        params.len() - 1
    } else {
        -1
    }
}

pub open spec fn unsupported_return_message(name: Seq<char>) -> Seq<char> {
    "native backend supports `Int` and `Buffer` returns, found `"@ + name + "`"@
}

pub open spec fn unsupported_parameter_message(ty: Seq<char>, name: Seq<char>) -> Seq<char> {
    "native backend supports `Int` and `Buffer` parameters, found `"@ + ty + "` for `"@ + name + "`"@
}

/// Why a verb's signature has no native form, if it has none: its return type is checked
/// first, then its parameters in order.
pub open spec fn spec_native_signature_error(definitions: Definitions, verb: VerbDecl) -> Option<Seq<char>> {
    let unsupported = first_unsupported_parameter(definitions, verb.params@);
    match verb.return_type {
        Some(ty) if spec_native_type(definitions, ty.name@) is None => Some(unsupported_return_message(ty.name@)),
        _ => if unsupported >= 0 {
            Some(
                unsupported_parameter_message(
                    verb.params@[unsupported].ty.name@,
                    verb.params@[unsupported].name@,
                ),
            )
        } else {
            None
        },
    }
}

/// Why an external verb cannot be called natively, if it cannot: it must cross an explicit
/// `unsafe` boundary and declare its return type; then its parameters and its return type
/// must have native forms.
pub open spec fn spec_external_signature_error(definitions: Definitions, verb: ExternalVerbDecl) -> Option<
    Seq<char>,
> {
    let unsupported = first_unsupported_parameter(definitions, verb.params@);
    if !verb.unsafe_boundary {
        Some("external native verb `"@ + verb.name@ + "` requires an explicit `unsafe` boundary"@)
    } else if verb.return_type is None {
        Some("external native verb `"@ + verb.name@ + "` requires an explicit return type"@)
    } else if unsupported >= 0 {
        Some(unsupported_parameter_message(verb.params@[unsupported].ty.name@, verb.params@[unsupported].name@))
    } else {
        match verb.return_type {
            Some(ty) if spec_native_type(definitions, ty.name@) is None => Some(unsupported_return_message(ty.name@)),
            _ => None,
        }
    }
}

fn first_unsupported(params: &Vec<Param>, layouts: &LayoutRegistry) -> (index: Option<usize>)
    ensures
        match index {
            Some(i) => i == first_unsupported_parameter(layouts.spec_definitions(), params@) && i < params@.len(),
            None => first_unsupported_parameter(layouts.spec_definitions(), params@) == -1,
        },
{
    let ghost definitions = layouts.spec_definitions();
    let mut index: usize = 0;
    while index < params.len()
        invariant
            definitions == layouts.spec_definitions(),
            index <= params@.len(),
            first_unsupported_parameter(definitions, params@.take(index as int)) == -1,
        decreases params@.len() - index,
    {
        proof {
            assert(params@.take(index + 1).drop_last() =~= params@.take(index as int));
        }
        if native_type_for_name(params[index].ty.name.as_str(), layouts).is_none() {
            proof {
                assert(first_unsupported_parameter(definitions, params@.take(index + 1)) == index);
                lemma_first_unsupported_prefix(definitions, params@, index + 1);
            }
            return Some(index);
        }
        index = index + 1;
    }
    proof {
        assert(params@.take(index as int) =~= params@);
    }
    None
}

proof fn lemma_first_unsupported_prefix(definitions: Definitions, params: Seq<Param>, count: int)
    requires
        0 <= count <= params.len(),
        first_unsupported_parameter(definitions, params.take(count)) >= 0,
    ensures
        first_unsupported_parameter(definitions, params) == first_unsupported_parameter(definitions, params.take(count)),
    decreases params.len(),
{
    if count == params.len() {
        assert(params.take(count) =~= params);
    } else {
        assert(params.drop_last().take(count) =~= params.take(count));
        lemma_first_unsupported_prefix(definitions, params.drop_last(), count);
    }
}

fn parameter_error(param: &Param) -> (error: NativeAbiError)
    ensures
        error.spec_message() == unsupported_parameter_message(param.ty.name@, param.name@),
{
    let text = message_with_text("native backend supports `Int` and `Buffer` parameters, found `", param.ty.name.as_str(), "` for `");
    NativeAbiError(concat(concat(text, param.name.as_str()), "`"))
}

/// Checks that a verb's return type and parameters all have native forms.
pub fn validate_native_signature(verb: &VerbDecl, layouts: &LayoutRegistry) -> (result: Result<(), NativeAbiError>)
    ensures
        match result {
            Ok(()) => spec_native_signature_error(layouts.spec_definitions(), *verb) is None,
            Err(error) => spec_native_signature_error(layouts.spec_definitions(), *verb) == Some(error.spec_message()),
        },
{
    if let Some(return_type) = &verb.return_type {
        if native_type_for_name(return_type.name.as_str(), layouts).is_none() {
            return Err(
                NativeAbiError(
                    message_with_text("native backend supports `Int` and `Buffer` returns, found `", return_type.name.as_str(), "`"),
                ),
            );
        }
    }
    match first_unsupported(&verb.params, layouts) {
        Some(index) => Err(parameter_error(&verb.params[index])),
        None => Ok(()),
    }
}

/// Checks that an external verb crosses an explicit `unsafe` boundary, declares its return
/// type, and has native forms for its parameters and return type.
pub fn validate_external_native_signature(verb: &ExternalVerbDecl, layouts: &LayoutRegistry) -> (result: Result<
    (),
    NativeAbiError,
>)
    ensures
        match result {
            Ok(()) => spec_external_signature_error(layouts.spec_definitions(), *verb) is None,
            Err(error) => spec_external_signature_error(layouts.spec_definitions(), *verb) == Some(error.spec_message()),
        },
{
    if !verb.unsafe_boundary {
        return Err(
            NativeAbiError(message_with_text("external native verb `", verb.name.as_str(), "` requires an explicit `unsafe` boundary")),
        );
    }
    if verb.return_type.is_none() {
        return Err(
            NativeAbiError(message_with_text("external native verb `", verb.name.as_str(), "` requires an explicit return type")),
        );
    }
    if let Some(index) = first_unsupported(&verb.params, layouts) {
        return Err(parameter_error(&verb.params[index]));
    }
    if let Some(return_type) = &verb.return_type {
        if native_type_for_name(return_type.name.as_str(), layouts).is_none() {
            return Err(
                NativeAbiError(
                    message_with_text("native backend supports `Int` and `Buffer` returns, found `", return_type.name.as_str(), "`"),
                ),
            );
        }
    }
    Ok(())
}

/// Each built-in type is found under its own name.
proof fn lemma_builtin_named(builtin: BuiltinType)
    ensures
        spec_lookup_builtin_type(builtin_type_name(builtin)) == Some(builtin),
{
    reveal_strlit("Int");
    reveal_strlit("Bool");
    reveal_strlit("String");
    reveal_strlit("Buffer");
    reveal_strlit("Array");
    reveal_strlit("Map");
    assert("Int"@.len() == 3 && "Int"@[0] == 'I');
    assert("Bool"@.len() == 4 && "Bool"@[0] == 'B');
    assert("String"@.len() == 6 && "String"@[0] == 'S');
    assert("Buffer"@.len() == 6 && "Buffer"@[0] == 'B');
    assert("Array"@.len() == 5 && "Array"@[0] == 'A');
    assert("Map"@.len() == 3 && "Map"@[0] == 'M');
}

/// A built-in type has a native form exactly where it has a native layout, and it is the
/// native type of that layout: integers and booleans are native integers, strings and buffers
/// are passed as themselves, and only arrays and maps have no native form.
pub proof fn law_builtin_native_types(
    definitions: Definitions,
    builtin: BuiltinType,
    visiting: Seq<Seq<char>>,
    fuel: nat,
)
    ensures
        spec_native_type(definitions, builtin_type_name(builtin)) is Some <==> native_layout_spec(
            definitions,
            builtin_type_name(builtin),
            visiting,
            fuel,
        ) is Ok,
        native_layout_spec(definitions, builtin_type_name(builtin), visiting, fuel) matches Ok((ty, _, _))
            ==> spec_native_type(definitions, builtin_type_name(builtin)) == Some(ty),
        spec_native_type(definitions, builtin_type_name(builtin)) is None <==> (builtin == BuiltinType::Array
            || builtin == BuiltinType::MapType),
{
    lemma_builtin_named(builtin);
}

/// Whether `name` names a built-in type other than an array or a map.
pub open spec fn scalar_builtin_name(name: Seq<char>) -> bool {
    spec_lookup_builtin_type(name) matches Some(b) && b != BuiltinType::Array && b != BuiltinType::MapType
}

/// Whether every parameter type and the return type of `verb`, if it has one, is a built-in
/// type other than an array or a map.
pub open spec fn scalar_builtin_signature(verb: VerbDecl) -> bool {
    &&& forall|i: int| 0 <= i < verb.params@.len() ==> scalar_builtin_name(#[trigger] verb.params@[i].ty.name@)
    &&& verb.return_type matches Some(ty) ==> scalar_builtin_name(ty.name@)
}

proof fn lemma_scalar_parameters_native(definitions: Definitions, params: Seq<Param>)
    requires
        forall|i: int| 0 <= i < params.len() ==> scalar_builtin_name(#[trigger] params[i].ty.name@),
    ensures
        first_unsupported_parameter(definitions, params) == -1,
    decreases params.len(),
{
    if params.len() > 0 {
        assert(scalar_builtin_name(params[params.len() - 1].ty.name@));
        lemma_scalar_parameters_native(definitions, params.drop_last());
    }
}

/// Every verb whose parameters and return value are integers, booleans, strings or buffers
/// has a native signature, whatever the program's structs and enums.
pub proof fn law_builtin_signatures_native(definitions: Definitions, verb: VerbDecl)
    requires
        scalar_builtin_signature(verb),
    ensures
        spec_native_signature_error(definitions, verb) is None,
{
    lemma_scalar_parameters_native(definitions, verb.params@);
}

} // verus!

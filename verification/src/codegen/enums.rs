use vstd::prelude::*;

use crate::ast::{Argument, Expr};
use crate::text::{message_with_text, owned};

use super::calls::{all_positional, find_named, first_named};
use super::generic_layout::{emit_error, find_enum};
use super::layout::enum_layout::first_variant;
use super::layout::{EnumFieldLayout, LayoutRegistry, NativeType};
use super::native::NativeEmitError;

verus! {

/// The name of the enum that a constructor is called on, where the receiver is a bare name.
pub fn enum_receiver_name(receiver: &Expr) -> (name: Option<&str>)
    ensures
        match name {
            Some(n) => receiver matches Expr::Identifier { name: identifier, .. } && identifier@ == n@,
            None => !(receiver is Identifier),
        },
{
    match receiver {
        Expr::Identifier { name, .. } => Some(name.as_str()),
        _ => None,
    }
}

/// The error of the first field, in order, that is unnamed or has no argument.
pub open spec fn payload_argument_error(fields: Seq<EnumFieldLayout>, arguments: Seq<Argument>) -> Option<Seq<char>>
    decreases fields.len(),
{
    if fields.len() == 0 {
        None
    } else {
        match payload_argument_error(fields.drop_last(), arguments) {
            Some(error) => Some(error),
            None => match fields.last().name {
                None => Some("tuple enum constructors require positional arguments"@),
                Some(name) => if first_named(arguments, name@) < 0 {
                    Some("missing enum payload `"@ + name@ + "`"@)
                } else {
                    None
                },
            },
        }
    }
}

proof fn lemma_payload_error_prefix(fields: Seq<EnumFieldLayout>, arguments: Seq<Argument>, count: int)
    requires
        0 <= count <= fields.len(),
        payload_argument_error(fields.take(count), arguments) is Some,
    ensures
        payload_argument_error(fields, arguments) == payload_argument_error(fields.take(count), arguments),
    decreases fields.len(),
{
    if count == fields.len() {
        assert(fields.take(count) =~= fields);
    } else {
        assert(fields.drop_last().take(count) =~= fields.take(count));
        lemma_payload_error_prefix(fields.drop_last(), arguments, count);
    }
}

/// Pairs the payload fields of a variant with the arguments of a constructor call, as
/// positions: positional arguments go to the fields in order, as far as both reach; named
/// arguments go each field to the first argument of its name, which needs every field to be
/// named and to have an argument.
pub fn ordered_payload_arguments(fields: &Vec<EnumFieldLayout>, arguments: &Vec<Argument>) -> (result: Result<
    Vec<(usize, usize)>,
    NativeEmitError,
>)
    ensures
        all_positional(arguments@) ==> (result matches Ok(pairs) && pairs@.len() == if fields@.len() <= arguments@.len() {
            fields@.len()
        } else {
            arguments@.len()
        } && forall|i: int| 0 <= i < pairs@.len() ==> #[trigger] pairs@[i] == (i as usize, i as usize)),
        !all_positional(arguments@) ==> match result {
            Ok(pairs) => payload_argument_error(fields@, arguments@) is None && pairs@.len() == fields@.len() && forall|i: int|
                0 <= i < pairs@.len() ==> {
                    &&& (#[trigger] pairs@[i]).0 == i
                    &&& fields@[i].name matches Some(name) && pairs@[i].1 == first_named(arguments@, name@)
                },
            Err(error) => payload_argument_error(fields@, arguments@) == Some(error.spec_message()),
        },
{
    let mut positional = true;
    let mut index: usize = 0;
    while index < arguments.len()
        invariant
            index <= arguments@.len(),
            positional <==> forall|j: int| 0 <= j < index ==> (#[trigger] arguments@[j]).name is None,
        decreases arguments@.len() - index,
    {
        if arguments[index].name.is_some() {
            positional = false;
        }
        index = index + 1;
    }
    let mut pairs: Vec<(usize, usize)> = Vec::new();
    if positional {
        let mut index: usize = 0;
        while index < fields.len() && index < arguments.len()
            invariant
                index <= fields@.len(),
                index <= arguments@.len(),
                pairs@.len() == index,
                forall|i: int| 0 <= i < index ==> #[trigger] pairs@[i] == (i as usize, i as usize),
            decreases fields@.len() - index,
        {
            pairs.push((index, index));
            index = index + 1;
        }
        return Ok(pairs);
    }
    let mut index: usize = 0;
    while index < fields.len()
        invariant
            !all_positional(arguments@),
            index <= fields@.len(),
            payload_argument_error(fields@.take(index as int), arguments@) is None,
            pairs@.len() == index,
            forall|i: int|
                0 <= i < index ==> {
                    &&& (#[trigger] pairs@[i]).0 == i
                    &&& fields@[i].name matches Some(name) && pairs@[i].1 == first_named(arguments@, name@)
                },
        decreases fields@.len() - index,
    {
        proof {
            assert(fields@.take(index + 1).drop_last() =~= fields@.take(index as int));
        }
        let name = match &fields[index].name {
            Some(name) => name,
            None => {
                proof {
                    lemma_payload_error_prefix(fields@, arguments@, index + 1);
                }
                return Err(emit_error(owned("tuple enum constructors require positional arguments")));
            },
        };
        match find_named(arguments, name) {
            Some(position) => {
                pairs.push((index, position));
            },
            None => {
                proof {
                    lemma_payload_error_prefix(fields@, arguments@, index + 1);
                }
                return Err(emit_error(message_with_text("missing enum payload `", name.as_str(), "`")));
            },
        }
        index = index + 1;
    }
    proof {
        assert(fields@.take(index as int) =~= fields@);
    }
    Ok(pairs)
}

/// The enum type of an expression that constructs a variant, written `Enum.Variant(..)` or
/// `Enum.Variant`: the enum named by the receiver, where it has that variant.
pub open spec fn spec_enum_expression_type(
    expression: Expr,
    enums: Seq<crate::ast::EnumDefView>,
    layouts: Seq<super::layout::EnumLayoutView>,
) -> Option<NativeType> {
    let (receiver, variant) = match expression {
        Expr::MethodCall { receiver, method, .. } => (Some(*receiver), method@),
        Expr::FieldAccess { object, field, .. } => (Some(*object), field@),
        _ => (None, Seq::empty()),
    };
    match receiver {
        Some(Expr::Identifier { name, .. }) => {
            let id = find_enum(enums, name@);
            if 0 <= id < layouts.len() && first_variant(layouts[id].variants, variant) >= 0 {
                Some(NativeType::Enum(id as usize))
            } else {
                None
            }
        },
        _ => None,
    }
}

/// The native type of an enum constructor expression, if it is one.
pub fn enum_expression_type(expression: &Expr, layouts: &LayoutRegistry) -> (ty: Option<NativeType>)
    requires
        layouts.wf(),
    ensures
        ty == spec_enum_expression_type(*expression, layouts.spec_definitions().enums, layouts.enum_layouts()),
{
    let (receiver, variant) = match expression {
        Expr::MethodCall { receiver, method, .. } => (&**receiver, method.as_str()),
        Expr::FieldAccess { object, field, .. } => (&**object, field.as_str()),
        _ => {
            return None;
        },
    };
    let name = match enum_receiver_name(receiver) {
        Some(name) => name,
        None => {
            return None;
        },
    };
    match layouts.enum_constructor(name, variant) {
        Some((id, _)) => Some(NativeType::Enum(id)),
        None => None,
    }
}

} // verus!

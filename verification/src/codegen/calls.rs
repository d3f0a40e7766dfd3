use vstd::prelude::*;

use crate::ast::{Argument, Expr};
use crate::text::message_with_text;

use super::generic_layout::{emit_error, option_text_view};
use super::native::NativeEmitError;

verus! {

/// The name an argument is passed under, if any.
pub open spec fn argument_name(argument: Argument) -> Option<Seq<char>> {
    option_text_view(argument.name)
}

/// The position of the first argument passed under `name`, or -1.
pub open spec fn first_named(arguments: Seq<Argument>, name: Seq<char>) -> int
    decreases arguments.len(),
{
    if arguments.len() == 0 {
        -1
    } else if first_named(arguments.drop_last(), name) >= 0 {
        first_named(arguments.drop_last(), name)
    } else if argument_name(arguments.last()) == Some(name) {
        arguments.len() - 1
    } else {
        -1
    }
}

/// The first parameter, by position, that no argument is passed under, or -1.
pub open spec fn first_missing(arguments: Seq<Argument>, parameters: Seq<Seq<char>>) -> int
    decreases parameters.len(),
{
    if parameters.len() == 0 {
        -1
    } else if first_missing(arguments, parameters.drop_last()) >= 0 {
        first_missing(arguments, parameters.drop_last())
    } else if first_named(arguments, parameters.last()) < 0 {
        parameters.len() - 1
    } else {
        -1
    }
}

pub open spec fn all_positional(arguments: Seq<Argument>) -> bool {
    forall|i: int| 0 <= i < arguments.len() ==> (#[trigger] arguments[i]).name is None
}

pub open spec fn some_positional(arguments: Seq<Argument>) -> bool {
    exists|i: int| 0 <= i < arguments.len() && (#[trigger] arguments[i]).name is None
}

pub open spec fn mixed_arguments_message() -> Seq<char> {
    "native calls cannot mix named and positional arguments"@
}

pub open spec fn missing_argument_message(parameter: Seq<char>) -> Seq<char> {
    "missing native argument `"@ + parameter
}

/// The expressions of a call's arguments in the order of the callee's parameters: as written
/// when every argument is positional, else, for each parameter, that of the first argument
/// passed under its name. Named and positional arguments cannot be mixed, and every parameter
/// needs an argument.
pub fn order_arguments<'a>(arguments: &'a Vec<Argument>, parameter_names: &Vec<String>) -> (result: Result<
    Vec<&'a Expr>,
    NativeEmitError,
>)
    ensures
        all_positional(arguments@) ==> (result matches Ok(ordered) && ordered@.len() == arguments@.len() && forall|i: int|
            0 <= i < arguments@.len() ==> *ordered@[i] == (#[trigger] arguments@[i]).expression),
        !all_positional(arguments@) && some_positional(arguments@) ==> (result matches Err(error)
            && error.spec_message() == mixed_arguments_message()),
        !some_positional(arguments@) && arguments@.len() > 0 ==> {
            let parameters = parameter_names@.map_values(|name: String| name@);
            let missing = first_missing(arguments@, parameters);
            if missing >= 0 {
                result matches Err(error) && error.spec_message() == missing_argument_message(parameters[missing])
            } else {
                result matches Ok(ordered) && ordered@.len() == parameters.len() && forall|k: int|
                    0 <= k < parameters.len() ==> *ordered@[k] == arguments@[first_named(
                        arguments@,
                        #[trigger] parameters[k],
                    )].expression
            }
        },
{
    let mut named = false;
    let mut positional = false;
    let mut index: usize = 0;
    while index < arguments.len()
        invariant
            index <= arguments@.len(),
            positional <==> exists|j: int| 0 <= j < index && (#[trigger] arguments@[j]).name is None,
            named <==> exists|j: int| 0 <= j < index && (#[trigger] arguments@[j]).name is Some,
        decreases arguments@.len() - index,
    {
        match &arguments[index].name {
            Some(_) => {
                named = true;
            },
            None => {
                positional = true;
            },
        }
        index = index + 1;
    }
    if !named {
        let mut ordered: Vec<&'a Expr> = Vec::new();
        let mut index: usize = 0;
        while index < arguments.len()
            invariant
                index <= arguments@.len(),
                ordered@.len() == index,
                forall|i: int| 0 <= i < index ==> *ordered@[i] == (#[trigger] arguments@[i]).expression,
            decreases arguments@.len() - index,
        {
            ordered.push(&arguments[index].expression);
            index = index + 1;
        }
        proof {
            if !all_positional(arguments@) {
                let i = choose|i: int| 0 <= i < arguments@.len() && !((#[trigger] arguments@[i]).name is None);
                assert(arguments@[i].name is Some);
            }
        }
        return Ok(ordered);
    }
    if positional {
        return Err(emit_error(crate::text::owned("native calls cannot mix named and positional arguments")));
    }
    let ghost parameters = parameter_names@.map_values(|name: String| name@);
    proof {
        let j = choose|j: int| 0 <= j < arguments@.len() && (#[trigger] arguments@[j]).name is Some;
        assert(!(arguments@[j].name is None));
        assert(!some_positional(arguments@)) by {
            if some_positional(arguments@) {
                let i = choose|i: int| 0 <= i < arguments@.len() && (#[trigger] arguments@[i]).name is None;
                assert(exists|j: int| 0 <= j < arguments@.len() && (#[trigger] arguments@[j]).name is None);
            }
        }
    }
    let mut ordered: Vec<&'a Expr> = Vec::new();
    let mut k: usize = 0;
    while k < parameter_names.len()
        invariant
            parameters == parameter_names@.map_values(|name: String| name@),
            !all_positional(arguments@),
            !some_positional(arguments@),
            arguments@.len() > 0,
            k <= parameter_names@.len(),
            first_missing(arguments@, parameters.take(k as int)) == -1,
            ordered@.len() == k,
            forall|m: int|
                0 <= m < k ==> {
                    let found = first_named(arguments@, #[trigger] parameters[m]);
                    0 <= found < arguments@.len() && *ordered@[m] == arguments@[found].expression
                },
        decreases parameter_names@.len() - k,
    {
        let parameter = &parameter_names[k];
        proof {
            assert(parameters.take(k + 1).drop_last() =~= parameters.take(k as int));
            assert(parameters.take(k + 1).last() == parameter@);
        }
        let found = find_named(arguments, parameter);
        match found {
            Some(position) => {
                proof {
                    lemma_first_named_bounds(arguments@, parameter@);
                }
                ordered.push(&arguments[position].expression);
            },
            None => {
                proof {
                    reveal_strlit("");
                    lemma_first_missing_prefix(arguments@, parameters, k + 1);
                }
                return Err(emit_error(message_with_text("missing native argument `", parameter.as_str(), "")));
            },
        }
        k = k + 1;
    }
    proof {
        assert(parameters.take(k as int) =~= parameters);
    }
    Ok(ordered)
}

/// The position of the first argument passed under `name`.
pub fn find_named(arguments: &Vec<Argument>, name: &String) -> (found: Option<usize>)
    ensures
        match found {
            Some(i) => i == first_named(arguments@, name@),
            None => first_named(arguments@, name@) == -1,
        },
{
    let mut j: usize = 0;
    while j < arguments.len()
        invariant
            j <= arguments@.len(),
            first_named(arguments@.take(j as int), name@) == -1,
        decreases arguments@.len() - j,
    {
        proof {
            assert(arguments@.take(j + 1).drop_last() =~= arguments@.take(j as int));
            assert(arguments@.take(j + 1).last() == arguments@[j as int]);
        }
        let matches = match &arguments[j].name {
            Some(candidate) => crate::text::str_eq(candidate.as_str(), name.as_str()),
            None => false,
        };
        if matches {
            proof {
                assert(first_named(arguments@.take(j + 1), name@) == j);
                lemma_first_named_prefix(arguments@, name@, j + 1);
            }
            return Some(j);
        }
        j = j + 1;
    }
    proof {
        assert(arguments@.take(j as int) =~= arguments@);
    }
    None
}

/// Where an argument of that name occurs among the first `count`, it is also the first of the
/// whole list.
pub proof fn lemma_first_named_prefix(arguments: Seq<Argument>, name: Seq<char>, count: int)
    requires
        0 <= count <= arguments.len(),
        first_named(arguments.take(count), name) >= 0,
    ensures
        first_named(arguments, name) == first_named(arguments.take(count), name),
        0 <= first_named(arguments, name) < count,
    decreases arguments.len(),
{
    if count == arguments.len() {
        assert(arguments.take(count) =~= arguments);
    } else {
        assert(arguments.drop_last().take(count) =~= arguments.take(count));
        lemma_first_named_prefix(arguments.drop_last(), name, count);
    }
    lemma_first_named_bounds(arguments.take(count), name);
}

pub proof fn lemma_first_named_bounds(arguments: Seq<Argument>, name: Seq<char>)
    ensures
        -1 <= first_named(arguments, name) < arguments.len(),
    decreases arguments.len(),
{
    if arguments.len() > 0 {
        lemma_first_named_bounds(arguments.drop_last(), name);
    }
}

/// A parameter missing among the first `count` is also the first missing of the whole list.
pub proof fn lemma_first_missing_prefix(arguments: Seq<Argument>, parameters: Seq<Seq<char>>, count: int)
    requires
        0 <= count <= parameters.len(),
        first_missing(arguments, parameters.take(count)) >= 0,
    ensures
        first_missing(arguments, parameters) == first_missing(arguments, parameters.take(count)),
    decreases parameters.len(),
{
    if count == parameters.len() {
        assert(parameters.take(count) =~= parameters);
    } else {
        assert(parameters.drop_last().take(count) =~= parameters.take(count));
        lemma_first_missing_prefix(arguments, parameters.drop_last(), count);
    }
}

} // verus!

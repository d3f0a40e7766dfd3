use vstd::prelude::*;

use crate::ast::{Program, TopLevelDecl};
use crate::cli::entry::{first_verb, first_verb_named};
use crate::semantic::{GenericInstance, ReachablePerformance, SemanticModel};
use crate::text::{message_with_text, owned};

use super::abi::{
    spec_external_signature_error, spec_native_signature_error, validate_external_native_signature,
    validate_native_signature,
};
use super::generic_layout::{
    Definitions, EnumLayoutView, GenericLayoutRegistry, StructLayoutView, emit_error, instance_layouts,
    instance_views, program_definitions,
};
use super::layout::{LayoutRegistry, native_definitions, native_layouts};
use super::model::{
    NativeCleanupPlan, NativeLoopUnwindPlan, NativeUnwindPlan, all_scopes, first_scope_error, lower_cleanup_plans,
    lower_loop_unwind_plans, lower_return_unwind_plans, lowers_scopes, validate_cleanup_plans,
};
use super::native::NativeEmitError;
use super::performance::{PerformanceRegistry, first_duplicate_symbol, reachable_views, sort_by_symbol};

verus! {

/// The first signature error among the verbs of `declarations`, in order.
pub open spec fn verbs_signature_error(definitions: Definitions, declarations: Seq<TopLevelDecl>) -> Option<Seq<char>>
    decreases declarations.len(),
{
    if declarations.len() == 0 {
        None
    } else {
        match verbs_signature_error(definitions, declarations.drop_last()) {
            Some(error) => Some(error),
            None => match declarations.last() {
                TopLevelDecl::Verb(verb) => spec_native_signature_error(definitions, verb),
                _ => None,
            },
        }
    }
}

/// The first signature error among the external verbs of `declarations`, in order.
pub open spec fn externals_signature_error(definitions: Definitions, declarations: Seq<TopLevelDecl>) -> Option<
    Seq<char>,
>
    decreases declarations.len(),
{
    if declarations.len() == 0 {
        None
    } else {
        match externals_signature_error(definitions, declarations.drop_last()) {
            Some(error) => Some(error),
            None => match declarations.last() {
                TopLevelDecl::ExternalVerb(verb) => spec_external_signature_error(definitions, verb),
                _ => None,
            },
        }
    }
}

/// Why native code cannot be produced for `program` entered at `symbol`, if it cannot, the
/// checks taken in order: the cleanup plans of semantic analysis, the symbols of the reachable
/// performances, the presence of verbs and of the entry verb, the layouts of the generic
/// instances, the layouts of the structs and enums, and the native signatures of the verbs
/// and then of the external verbs.
pub open spec fn spec_emission_error(
    program: Program,
    model: SemanticModel,
    reachable: Seq<ReachablePerformance>,
    instances: Seq<GenericInstance>,
    symbol: Seq<char>,
    pointer_size: u32,
) -> Option<Seq<char>> {
    let declarations = program.declarations@;
    let performances = sort_by_symbol(reachable_views(reachable));
    let duplicate = first_duplicate_symbol(performances);
    let native = native_definitions(program, pointer_size);
    match first_scope_error(all_scopes(model), model) {
        Some(error) => Some("invalid cleanup plan: "@ + error),
        None => if duplicate >= 0 {
            Some("duplicate performance symbol `"@ + performances[duplicate].symbol + "`"@)
        } else if first_verb(declarations) < 0 {
            Some("program has no verb declarations"@)
        } else if first_verb_named(declarations, symbol) < 0 {
            Some("entry verb `"@ + symbol + "` was not found"@)
        } else {
            match instance_layouts(
                program_definitions(program, pointer_size),
                instance_views(instances),
                instances.len() as nat,
            ) {
                Err(error) => Some(error),
                Ok(_) => match native_layouts(native) {
                    Err(error) => Some(error),
                    Ok(_) => match verbs_signature_error(native, declarations) {
                        Some(error) => Some(error),
                        None => externals_signature_error(native, declarations),
                    },
                },
            }
        }
    }
}

/// Everything that the native backend builds an object from, checked.
pub struct NativeEmissionPlan {
    pub entry: String,
    pub cleanup_plans: Vec<NativeCleanupPlan>,
    pub return_unwind_plans: Vec<NativeUnwindPlan>,
    pub loop_unwind_plans: Vec<NativeLoopUnwindPlan>,
    pub performances: PerformanceRegistry,
    pub generic_layouts: GenericLayoutRegistry,
    pub layouts: LayoutRegistry,
}

/// The plan is the one that the checked inputs give.
pub open spec fn plans_emission(
    plan: NativeEmissionPlan,
    program: Program,
    model: SemanticModel,
    reachable: Seq<ReachablePerformance>,
    instances: Seq<GenericInstance>,
    symbol: Seq<char>,
    pointer_size: u32,
) -> bool {
    &&& plan.entry@ == symbol
    &&& lowers_scopes(plan.cleanup_plans@, model.cleanup_plans@)
    &&& plan.return_unwind_plans@.len() == model.return_unwind_plans@.len()
    &&& forall|i: int|
        0 <= i < plan.return_unwind_plans@.len() ==> {
            &&& (#[trigger] plan.return_unwind_plans@[i]).span == model.return_unwind_plans@[i].span
            &&& lowers_scopes(plan.return_unwind_plans@[i].scopes@, model.return_unwind_plans@[i].scopes@)
        }
    &&& plan.loop_unwind_plans@.len() == model.loop_unwind_plans@.len()
    &&& forall|i: int|
        0 <= i < plan.loop_unwind_plans@.len() ==> {
            &&& (#[trigger] plan.loop_unwind_plans@[i]).span == model.loop_unwind_plans@[i].span
            &&& plan.loop_unwind_plans@[i].kind == model.loop_unwind_plans@[i].kind
            &&& lowers_scopes(plan.loop_unwind_plans@[i].scopes@, model.loop_unwind_plans@[i].scopes@)
        }
    &&& plan.performances.view() == sort_by_symbol(reachable_views(reachable))
    &&& plan.generic_layouts.spec_definitions() == program_definitions(program, pointer_size)
    &&& instance_layouts(program_definitions(program, pointer_size), instance_views(instances), instances.len() as nat)
        == Ok::<(Seq<StructLayoutView>, Seq<EnumLayoutView>), Seq<char>>(
        (plan.generic_layouts.struct_layouts(), plan.generic_layouts.enum_layouts()),
    )
    &&& plan.layouts.wf()
    &&& plan.layouts.spec_definitions() == native_definitions(program, pointer_size)
}

fn check_verb_signatures(program: &Program, layouts: &LayoutRegistry) -> (result: Result<(), NativeEmitError>)
    ensures
        match result {
            Ok(()) => verbs_signature_error(layouts.spec_definitions(), program.declarations@) is None
                && externals_signature_error(layouts.spec_definitions(), program.declarations@) is None,
            Err(error) => match verbs_signature_error(layouts.spec_definitions(), program.declarations@) {
                Some(message) => error.spec_message() == message,
                None => externals_signature_error(layouts.spec_definitions(), program.declarations@) == Some(
                    error.spec_message(),
                ),
            },
        },
{
    let ghost declarations = program.declarations@;
    let ghost definitions = layouts.spec_definitions();
    let mut index: usize = 0;
    while index < program.declarations.len()
        invariant
            declarations == program.declarations@,
            definitions == layouts.spec_definitions(),
            index <= declarations.len(),
            verbs_signature_error(definitions, declarations.take(index as int)) is None,
        decreases declarations.len() - index,
    {
        proof {
            assert(declarations.take(index + 1).drop_last() =~= declarations.take(index as int));
        }
        if let TopLevelDecl::Verb(verb) = &program.declarations[index] {
            if let Err(error) = validate_native_signature(verb, layouts) {
                proof {
                    lemma_verbs_error_prefix(definitions, declarations, index + 1);
                }
                return Err(emit_error(error.message()));
            }
        }
        index = index + 1;
    }
    proof {
        assert(declarations.take(index as int) =~= declarations);
    }
    let mut index: usize = 0;
    while index < program.declarations.len()
        invariant
            declarations == program.declarations@,
            definitions == layouts.spec_definitions(),
            verbs_signature_error(definitions, declarations) is None,
            index <= declarations.len(),
            externals_signature_error(definitions, declarations.take(index as int)) is None,
        decreases declarations.len() - index,
    {
        proof {
            assert(declarations.take(index + 1).drop_last() =~= declarations.take(index as int));
        }
        if let TopLevelDecl::ExternalVerb(verb) = &program.declarations[index] {
            if let Err(error) = validate_external_native_signature(verb, layouts) {
                proof {
                    lemma_externals_error_prefix(definitions, declarations, index + 1);
                }
                return Err(emit_error(error.message()));
            }
        }
        index = index + 1;
    }
    proof {
        assert(declarations.take(index as int) =~= declarations);
    }
    Ok(())
}

proof fn lemma_verbs_error_prefix(definitions: Definitions, declarations: Seq<TopLevelDecl>, count: int)
    requires
        0 <= count <= declarations.len(),
        verbs_signature_error(definitions, declarations.take(count)) is Some,
    ensures
        verbs_signature_error(definitions, declarations) == verbs_signature_error(definitions, declarations.take(count)),
    decreases declarations.len(),
{
    if count == declarations.len() {
        assert(declarations.take(count) =~= declarations);
    } else {
        assert(declarations.drop_last().take(count) =~= declarations.take(count));
        lemma_verbs_error_prefix(definitions, declarations.drop_last(), count);
    }
}

proof fn lemma_externals_error_prefix(definitions: Definitions, declarations: Seq<TopLevelDecl>, count: int)
    requires
        0 <= count <= declarations.len(),
        externals_signature_error(definitions, declarations.take(count)) is Some,
    ensures
        externals_signature_error(definitions, declarations) == externals_signature_error(
            definitions,
            declarations.take(count),
        ),
    decreases declarations.len(),
{
    if count == declarations.len() {
        assert(declarations.take(count) =~= declarations);
    } else {
        assert(declarations.drop_last().take(count) =~= declarations.take(count));
        lemma_externals_error_prefix(definitions, declarations.drop_last(), count);
    }
}

fn has_verbs(program: &Program, symbol: &str) -> (found: (bool, bool))
    ensures
        found.0 == (first_verb(program.declarations@) >= 0),
        found.1 == (first_verb_named(program.declarations@, symbol@) >= 0),
{
    let any = crate::cli::entry::first_defined_verb(program).is_some();
    let named = crate::cli::entry::validate_entry(
        program,
        symbol,
        crate::cli::entry::EmitKind::Object,
        crate::configuration::EntryContract::Freestanding,
    ).is_ok();
    (any, named)
}

/// Checks everything that native code for `program`, entered at `symbol` and with pointers of
/// `pointer_size` bytes, is built from, and gathers it: the cleanup schedule, the reachable
/// performances in symbol order, and the layouts of the generic instances and of the structs
/// and enums. The first check that fails gives the error.
pub fn plan_program_emission(
    program: &Program,
    model: &SemanticModel,
    reachable: &[ReachablePerformance],
    instances: &[GenericInstance],
    symbol: &str,
    pointer_size: u32,
) -> (result: Result<NativeEmissionPlan, NativeEmitError>)
    ensures
        match result {
            Ok(plan) => spec_emission_error(*program, *model, reachable@, instances@, symbol@, pointer_size) is None
                && plans_emission(plan, *program, *model, reachable@, instances@, symbol@, pointer_size),
            Err(error) => spec_emission_error(*program, *model, reachable@, instances@, symbol@, pointer_size)
                == Some(error.spec_message()),
        },
{
    proof {
        reveal_strlit("");
    }
    if let Err(error) = validate_cleanup_plans(model) {
        return Err(emit_error(message_with_text("invalid cleanup plan: ", error.as_str(), "")));
    }
    let performances = PerformanceRegistry::from_reachable(reachable);
    if let Err(error) = performances.validate() {
        return Err(emit_error(error));
    }
    let (any_verb, entry_found) = has_verbs(program, symbol);
    if !any_verb {
        return Err(emit_error(owned("program has no verb declarations")));
    }
    if !entry_found {
        return Err(emit_error(message_with_text("entry verb `", symbol, "` was not found")));
    }
    let generic_layouts = match GenericLayoutRegistry::from_program(program, instances, pointer_size) {
        Ok(registry) => registry,
        Err(error) => {
            return Err(error);
        },
    };
    let layouts = match LayoutRegistry::from_program(program, pointer_size) {
        Ok(registry) => registry,
        Err(error) => {
            return Err(error);
        },
    };
    if let Err(error) = check_verb_signatures(program, &layouts) {
        return Err(error);
    }
    Ok(
        NativeEmissionPlan {
            entry: owned(symbol),
            cleanup_plans: lower_cleanup_plans(model),
            return_unwind_plans: lower_return_unwind_plans(model),
            loop_unwind_plans: lower_loop_unwind_plans(model),
            performances,
            generic_layouts,
            layouts,
        },
    )
}

} // verus!

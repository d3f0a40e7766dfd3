use vstd::prelude::*;

use crate::semantic::{
    CleanupAction, LoopExitKind, ScopeCleanup, SemanticModel,
};
use crate::span::SourceSpan;
use crate::text::{message_with_number, spec_decimal};

verus! {

/// One native cleanup step.
#[derive(Clone, Copy, Debug, PartialEq, Eq, Structural)]
pub enum NativeInstruction {
    EndBorrow { borrow_id: usize },
    DropBinding { binding_index: usize },
}

/// The native steps for leaving one scope.
#[derive(Clone, Debug)]
pub struct NativeCleanupPlan {
    pub depth: usize,
    pub instructions: Vec<NativeInstruction>,
}

/// The scopes a `return` leaves.
#[derive(Clone, Debug)]
pub struct NativeUnwindPlan {
    pub span: SourceSpan,
    pub scopes: Vec<NativeCleanupPlan>,
}

/// The scopes a `break` or `continue` leaves.
#[derive(Clone, Debug)]
pub struct NativeLoopUnwindPlan {
    pub span: SourceSpan,
    pub kind: LoopExitKind,
    pub scopes: Vec<NativeCleanupPlan>,
}

/// The native instruction for a cleanup action.
pub open spec fn spec_lower_action(action: CleanupAction) -> NativeInstruction {
    match action {
        CleanupAction::EndBorrow { borrow_id } => NativeInstruction::EndBorrow { borrow_id },
        CleanupAction::DropBinding { binding_index } => NativeInstruction::DropBinding { binding_index },
    }
}

/// `plan` is the lowering of `scope`: same depth, each action lowered in order.
pub open spec fn lowers_scope(plan: NativeCleanupPlan, scope: ScopeCleanup) -> bool {
    &&& plan.depth == scope.depth
    &&& plan.instructions@ == scope.actions@.map_values(|action: CleanupAction| spec_lower_action(action))
}

/// Each plan of `plans` lowers the scope at the same position of `scopes`.
pub open spec fn lowers_scopes(plans: Seq<NativeCleanupPlan>, scopes: Seq<ScopeCleanup>) -> bool {
    &&& plans.len() == scopes.len()
    &&& forall|i: int| 0 <= i < plans.len() ==> lowers_scope(#[trigger] plans[i], scopes[i])
}

fn lower_action(action: &CleanupAction) -> (instruction: NativeInstruction)
    ensures
        instruction == spec_lower_action(*action),
{
    match action {
        CleanupAction::EndBorrow { borrow_id } => NativeInstruction::EndBorrow { borrow_id: *borrow_id },
        CleanupAction::DropBinding { binding_index } => {
            NativeInstruction::DropBinding { binding_index: *binding_index }
        },
    }
}

fn lower_scope(scope: &ScopeCleanup) -> (plan: NativeCleanupPlan)
    ensures
        lowers_scope(plan, *scope),
{
    let mut instructions: Vec<NativeInstruction> = Vec::new();
    let mut index: usize = 0;
    while index < scope.actions.len()
        invariant
            index <= scope.actions@.len(),
            instructions@ == scope.actions@.take(index as int).map_values(
                |action: CleanupAction| spec_lower_action(action),
            ),
        decreases scope.actions@.len() - index,
    {
        let instruction = lower_action(&scope.actions[index]);
        instructions.push(instruction);
        index = index + 1;
        proof {
            assert(scope.actions@.take(index as int).map_values(
                |action: CleanupAction| spec_lower_action(action),
            ) =~= scope.actions@.take(index - 1).map_values(
                |action: CleanupAction| spec_lower_action(action),
            ).push(spec_lower_action(scope.actions@[index - 1])));
        }
    }
    assert(scope.actions@.take(index as int) =~= scope.actions@);
    NativeCleanupPlan { depth: scope.depth, instructions }
}

fn lower_scopes(scopes: &Vec<ScopeCleanup>) -> (plans: Vec<NativeCleanupPlan>)
    ensures
        lowers_scopes(plans@, scopes@),
{
    let mut plans: Vec<NativeCleanupPlan> = Vec::new();
    let mut index: usize = 0;
    while index < scopes.len()
        invariant
            index <= scopes@.len(),
            plans@.len() == index,
            forall|i: int| 0 <= i < index ==> lowers_scope(#[trigger] plans@[i], scopes@[i]),
        decreases scopes@.len() - index,
    {
        let plan = lower_scope(&scopes[index]);
        plans.push(plan);
        index = index + 1;
    }
    plans
}

/// The native form of each scope cleanup, in order.
pub fn lower_cleanup_plans(model: &SemanticModel) -> (plans: Vec<NativeCleanupPlan>)
    ensures
        lowers_scopes(plans@, model.cleanup_plans@),
{
    lower_scopes(&model.cleanup_plans)
}

/// The native form of each return plan: same span, each scope lowered.
pub fn lower_return_unwind_plans(model: &SemanticModel) -> (plans: Vec<NativeUnwindPlan>)
    ensures
        plans@.len() == model.return_unwind_plans@.len(),
        forall|i: int|
            0 <= i < plans@.len() ==> {
                &&& (#[trigger] plans@[i]).span == model.return_unwind_plans@[i].span
                &&& lowers_scopes(plans@[i].scopes@, model.return_unwind_plans@[i].scopes@)
            },
{
    let mut plans: Vec<NativeUnwindPlan> = Vec::new();
    let mut index: usize = 0;
    while index < model.return_unwind_plans.len()
        invariant
            index <= model.return_unwind_plans@.len(),
            plans@.len() == index,
            forall|i: int|
                0 <= i < index ==> {
                    &&& (#[trigger] plans@[i]).span == model.return_unwind_plans@[i].span
                    &&& lowers_scopes(plans@[i].scopes@, model.return_unwind_plans@[i].scopes@)
                },
        decreases model.return_unwind_plans@.len() - index,
    {
        let plan = &model.return_unwind_plans[index];
        plans.push(NativeUnwindPlan { span: plan.span, scopes: lower_scopes(&plan.scopes) });
        index = index + 1;
    }
    plans
}

/// The native form of each loop-exit plan: same span and kind, each scope lowered.
pub fn lower_loop_unwind_plans(model: &SemanticModel) -> (plans: Vec<NativeLoopUnwindPlan>)
    ensures
        plans@.len() == model.loop_unwind_plans@.len(),
        forall|i: int|
            0 <= i < plans@.len() ==> {
                &&& (#[trigger] plans@[i]).span == model.loop_unwind_plans@[i].span
                &&& plans@[i].kind == model.loop_unwind_plans@[i].kind
                &&& lowers_scopes(plans@[i].scopes@, model.loop_unwind_plans@[i].scopes@)
            },
{
    let mut plans: Vec<NativeLoopUnwindPlan> = Vec::new();
    let mut index: usize = 0;
    while index < model.loop_unwind_plans.len()
        invariant
            index <= model.loop_unwind_plans@.len(),
            plans@.len() == index,
            forall|i: int|
                0 <= i < index ==> {
                    &&& (#[trigger] plans@[i]).span == model.loop_unwind_plans@[i].span
                    &&& plans@[i].kind == model.loop_unwind_plans@[i].kind
                    &&& lowers_scopes(plans@[i].scopes@, model.loop_unwind_plans@[i].scopes@)
                },
        decreases model.loop_unwind_plans@.len() - index,
    {
        let plan = &model.loop_unwind_plans[index];
        plans.push(
            NativeLoopUnwindPlan { span: plan.span, kind: plan.kind, scopes: lower_scopes(&plan.scopes) },
        );
        index = index + 1;
    }
    plans
}

// ---------------------------------------------------------------------------------------------
// Validation
// ---------------------------------------------------------------------------------------------

/// Some action before position `end` ends the borrow `borrow_id`.
pub open spec fn ends_borrow_before(actions: Seq<CleanupAction>, end: int, borrow_id: usize) -> bool {
    exists|j: int| 0 <= j < end && actions[j] == (CleanupAction::EndBorrow { borrow_id })
}

/// Some action before position `end` drops the binding `binding_index`.
pub open spec fn drops_binding_before(actions: Seq<CleanupAction>, end: int, binding_index: usize) -> bool {
    exists|j: int| 0 <= j < end && actions[j] == (CleanupAction::DropBinding { binding_index })
}

/// The model knows a borrow with this id.
pub open spec fn knows_borrow(model: SemanticModel, borrow_id: usize) -> bool {
    exists|k: int| 0 <= k < model.borrows@.len() && (#[trigger] model.borrows@[k]).id == borrow_id
}

/// What is wrong with the action at `index`, given the actions before it.
pub open spec fn action_error(actions: Seq<CleanupAction>, index: int, model: SemanticModel) -> Option<Seq<char>> {
    match actions[index] {
        CleanupAction::EndBorrow { borrow_id } => {
            if ends_borrow_before(actions, index, borrow_id) {
                Some("cleanup repeats borrow `"@ + spec_decimal(borrow_id as nat) + "`"@)
            } else if !knows_borrow(model, borrow_id) {
                Some("cleanup references unknown borrow `"@ + spec_decimal(borrow_id as nat) + "`"@)
            } else {
                None
            }
        },
        CleanupAction::DropBinding { binding_index } => {
            if binding_index >= model.bindings@.len() {
                Some("cleanup references invalid binding `"@ + spec_decimal(binding_index as nat) + "`"@)
            } else if drops_binding_before(actions, index, binding_index) {
                Some("cleanup repeats binding `"@ + spec_decimal(binding_index as nat) + "`"@)
            } else {
                None
            }
        },
    }
}

/// The first error among the actions before position `end`.
pub open spec fn first_action_error(actions: Seq<CleanupAction>, end: int, model: SemanticModel) -> Option<Seq<char>>
    decreases end,
{
    if end <= 0 {
        None
    } else {
        match first_action_error(actions, end - 1, model) {
            Some(error) => Some(error),
            None => action_error(actions, end - 1, model),
        }
    }
}

/// The first error in one scope.
pub open spec fn scope_error(scope: ScopeCleanup, model: SemanticModel) -> Option<Seq<char>> {
    first_action_error(scope.actions@, scope.actions@.len() as int, model)
}

/// The first error among `scopes`, taken in order.
pub open spec fn first_scope_error(scopes: Seq<ScopeCleanup>, model: SemanticModel) -> Option<Seq<char>>
    decreases scopes.len(),
{
    if scopes.len() == 0 {
        None
    } else {
        match first_scope_error(scopes.drop_last(), model) {
            Some(error) => Some(error),
            None => scope_error(scopes.last(), model),
        }
    }
}

/// Every scope that the model's plans mention, in the order validation visits them:
/// the scope plans, then the scopes of each return plan, then those of each loop plan.
pub open spec fn all_scopes(model: SemanticModel) -> Seq<ScopeCleanup> {
    model.cleanup_plans@ + return_scope_lists(model).flatten() + loop_scope_lists(model).flatten()
}

/// The scope lists of the return plans, in order.
pub open spec fn return_scope_lists(model: SemanticModel) -> Seq<Seq<ScopeCleanup>> {
    Seq::new(model.return_unwind_plans@.len(), |i: int| model.return_unwind_plans@[i].scopes@)
}

/// The scope lists of the loop-exit plans, in order.
pub open spec fn loop_scope_lists(model: SemanticModel) -> Seq<Seq<ScopeCleanup>> {
    Seq::new(model.loop_unwind_plans@.len(), |i: int| model.loop_unwind_plans@[i].scopes@)
}

/// Once an error is found among the first `k` actions, later actions do not change it.
pub proof fn lemma_first_action_error_stable(actions: Seq<CleanupAction>, k: int, end: int, model: SemanticModel)
    requires
        k <= end,
        first_action_error(actions, k, model) is Some,
    ensures
        first_action_error(actions, end, model) == first_action_error(actions, k, model),
    decreases end - k,
{
    if end > k {
        lemma_first_action_error_stable(actions, k, end - 1, model);
    }
}

pub proof fn lemma_first_scope_error_append(a: Seq<ScopeCleanup>, b: Seq<ScopeCleanup>, model: SemanticModel)
    ensures
        first_scope_error(a + b, model) == match first_scope_error(a, model) {
            Some(error) => Some(error),
            None => first_scope_error(b, model),
        },
    decreases b.len(),
{
    if b.len() == 0 {
        assert(a + b =~= a);
    } else {
        assert((a + b).drop_last() =~= a + b.drop_last());
        lemma_first_scope_error_append(a, b.drop_last(), model);
    }
}

proof fn lemma_push_contains(values: Seq<usize>, id: usize)
    ensures
        forall|x: usize| #[trigger] values.push(x).contains(id) <==> (values.contains(id) || id == x),
{
    assert forall|x: usize| #[trigger] values.push(x).contains(id) <==> (values.contains(id) || id == x) by {
        if values.contains(id) {
            let j = choose|j: int| 0 <= j < values.len() && values[j] == id;
            assert(values.push(x)[j] == id);
        }
        if id == x {
            assert(values.push(x)[values.len() as int] == id);
        }
        if values.push(x).contains(id) {
            let j = choose|j: int| 0 <= j < values.len() + 1 && values.push(x)[j] == id;
            if j < values.len() {
                assert(values[j] == id);
            }
        }
    }
}

proof fn lemma_ends_borrow_step(actions: Seq<CleanupAction>, index: int, id: usize)
    requires
        0 <= index < actions.len(),
    ensures
        ends_borrow_before(actions, index + 1, id) <==> (ends_borrow_before(actions, index, id)
            || actions[index] == (CleanupAction::EndBorrow { borrow_id: id })),
{
    if ends_borrow_before(actions, index + 1, id) {
        let j = choose|j: int| 0 <= j < index + 1 && actions[j] == (CleanupAction::EndBorrow { borrow_id: id });
        if j < index {
            assert(ends_borrow_before(actions, index, id));
        }
    }
    if ends_borrow_before(actions, index, id) {
        let j = choose|j: int| 0 <= j < index && actions[j] == (CleanupAction::EndBorrow { borrow_id: id });
        assert(0 <= j < index + 1);
    }
    if actions[index] == (CleanupAction::EndBorrow { borrow_id: id }) {
        assert(0 <= index < index + 1);
    }
}

proof fn lemma_drops_binding_step(actions: Seq<CleanupAction>, index: int, id: usize)
    requires
        0 <= index < actions.len(),
    ensures
        drops_binding_before(actions, index + 1, id) <==> (drops_binding_before(actions, index, id)
            || actions[index] == (CleanupAction::DropBinding { binding_index: id })),
{
    if drops_binding_before(actions, index + 1, id) {
        let j = choose|j: int| 0 <= j < index + 1 && actions[j] == (CleanupAction::DropBinding { binding_index: id });
        if j < index {
            assert(drops_binding_before(actions, index, id));
        }
    }
    if drops_binding_before(actions, index, id) {
        let j = choose|j: int| 0 <= j < index && actions[j] == (CleanupAction::DropBinding { binding_index: id });
        assert(0 <= j < index + 1);
    }
    if actions[index] == (CleanupAction::DropBinding { binding_index: id }) {
        assert(0 <= index < index + 1);
    }
}

fn contains_index(values: &Vec<usize>, value: usize) -> (found: bool)
    ensures
        found == values@.contains(value),
{
    let mut index: usize = 0;
    while index < values.len()
        invariant
            index <= values@.len(),
            forall|j: int| 0 <= j < index ==> values@[j] != value,
        decreases values@.len() - index,
    {
        if values[index] == value {
            return true;
        }
        index = index + 1;
    }
    false
}

fn has_borrow(model: &SemanticModel, borrow_id: usize) -> (found: bool)
    ensures
        found == knows_borrow(*model, borrow_id),
{
    let mut index: usize = 0;
    while index < model.borrows.len()
        invariant
            index <= model.borrows@.len(),
            forall|k: int| 0 <= k < index ==> (#[trigger] model.borrows@[k]).id != borrow_id,
        decreases model.borrows@.len() - index,
    {
        if model.borrows[index].id == borrow_id {
            return true;
        }
        index = index + 1;
    }
    false
}

fn validate_scope(scope: &ScopeCleanup, model: &SemanticModel) -> (result: Result<(), String>)
    ensures
        match result {
            Ok(()) => scope_error(*scope, *model) is None,
            Err(message) => scope_error(*scope, *model) == Some(message@),
        },
{
    let actions = &scope.actions;
    let mut bindings: Vec<usize> = Vec::new();
    let mut borrows: Vec<usize> = Vec::new();
    let mut index: usize = 0;
    while index < actions.len()
        invariant
            actions@ == scope.actions@,
            index <= actions@.len(),
            first_action_error(actions@, index as int, *model) is None,
            forall|id: usize| borrows@.contains(id) <==> ends_borrow_before(actions@, index as int, id),
            forall|id: usize| bindings@.contains(id) <==> drops_binding_before(actions@, index as int, id),
        decreases actions@.len() - index,
    {
        let action = actions[index];
        let ghost old_borrows = borrows@;
        let ghost old_bindings = bindings@;
        match action {
            CleanupAction::EndBorrow { borrow_id } => {
                if contains_index(&borrows, borrow_id) {
                    proof { lemma_first_action_error_stable(actions@, index + 1, actions@.len() as int, *model); }
                    return Err(message_with_number("cleanup repeats borrow `", borrow_id, "`"));
                }
                if !has_borrow(model, borrow_id) {
                    proof { lemma_first_action_error_stable(actions@, index + 1, actions@.len() as int, *model); }
                    return Err(message_with_number("cleanup references unknown borrow `", borrow_id, "`"));
                }
                borrows.push(borrow_id);
            },
            CleanupAction::DropBinding { binding_index } => {
                if binding_index >= model.bindings.len() {
                    proof { lemma_first_action_error_stable(actions@, index + 1, actions@.len() as int, *model); }
                    return Err(message_with_number("cleanup references invalid binding `", binding_index, "`"));
                }
                if contains_index(&bindings, binding_index) {
                    proof { lemma_first_action_error_stable(actions@, index + 1, actions@.len() as int, *model); }
                    return Err(message_with_number("cleanup repeats binding `", binding_index, "`"));
                }
                bindings.push(binding_index);
            },
        }
        index = index + 1;
        proof {
            assert forall|id: usize| borrows@.contains(id) <==> ends_borrow_before(actions@, index as int, id) by {
                lemma_ends_borrow_step(actions@, index - 1, id);
                lemma_push_contains(old_borrows, id);
            }
            assert forall|id: usize| bindings@.contains(id) <==> drops_binding_before(actions@, index as int, id) by {
                lemma_drops_binding_step(actions@, index - 1, id);
                lemma_push_contains(old_bindings, id);
            }
        }
    }
    Ok(())
}

fn validate_scopes(scopes: &Vec<ScopeCleanup>, model: &SemanticModel) -> (result: Result<(), String>)
    ensures
        match result {
            Ok(()) => first_scope_error(scopes@, *model) is None,
            Err(message) => first_scope_error(scopes@, *model) == Some(message@),
        },
{
    let mut index: usize = 0;
    while index < scopes.len()
        invariant
            index <= scopes@.len(),
            first_scope_error(scopes@.take(index as int), *model) is None,
        decreases scopes@.len() - index,
    {
        let checked = validate_scope(&scopes[index], model);
        proof {
            assert(scopes@.take(index + 1).drop_last() =~= scopes@.take(index as int));
        }
        match checked {
            Ok(()) => {},
            Err(message) => {
                proof {
                    lemma_first_scope_error_append(scopes@.take(index + 1), scopes@.skip(index + 1), *model);
                    assert(scopes@.take(index + 1) + scopes@.skip(index + 1) =~= scopes@);
                }
                return Err(message);
            },
        }
        index = index + 1;
    }
    assert(scopes@.take(index as int) =~= scopes@);
    Ok(())
}

/// Checks that every cleanup step names a known borrow or binding, and that no scope ends a
/// borrow or drops a binding twice. The error is the first problem found, scopes taken in the
/// order of `all_scopes`.
pub fn validate_cleanup_plans(model: &SemanticModel) -> (result: Result<(), String>)
    ensures
        match result {
            Ok(()) => first_scope_error(all_scopes(*model), *model) is None,
            Err(message) => first_scope_error(all_scopes(*model), *model) == Some(message@),
        },
{
    let ghost return_scopes = return_scope_lists(*model);
    let ghost loops = loop_scope_lists(*model);
    proof {
        lemma_first_scope_error_append(model.cleanup_plans@ + return_scopes.flatten(), loops.flatten(), *model);
        lemma_first_scope_error_append(model.cleanup_plans@, return_scopes.flatten(), *model);
    }
    match validate_scopes(&model.cleanup_plans, model) {
        Ok(()) => {},
        Err(message) => {
            return Err(message);
        },
    }
    let mut index: usize = 0;
    while index < model.return_unwind_plans.len()
        invariant
            index <= return_scopes.len(),
            return_scopes == return_scope_lists(*model),
            first_scope_error(model.cleanup_plans@, *model) is None,
            first_scope_error(return_scopes.take(index as int).flatten(), *model) is None,
        decreases return_scopes.len() - index,
    {
        let checked = validate_scopes(&model.return_unwind_plans[index].scopes, model);
        proof {
            assert(return_scopes.take(index + 1) =~= return_scopes.take(index as int).push(return_scopes[index as int]));
            return_scopes.take(index as int).lemma_flatten_push(return_scopes[index as int]);
            lemma_first_scope_error_append(return_scopes.take(index as int).flatten(), return_scopes[index as int], *model);
        }
        match checked {
            Ok(()) => {},
            Err(message) => {
                proof {
                    assert(return_scopes =~= return_scopes.take(index + 1) + return_scopes.skip(index + 1));
                    lemma_flatten_concat(return_scopes.take(index + 1), return_scopes.skip(index + 1));
                    lemma_first_scope_error_append(return_scopes.take(index + 1).flatten(), return_scopes.skip(index + 1).flatten(), *model);
                    lemma_first_scope_error_append(model.cleanup_plans@ + return_scopes.flatten(), loop_scope_lists(*model).flatten(), *model);
                    lemma_first_scope_error_append(model.cleanup_plans@, return_scopes.flatten(), *model);
                }
                return Err(message);
            },
        }
        index = index + 1;
    }
    assert(return_scopes.take(index as int) =~= return_scopes);
    let mut index: usize = 0;
    while index < model.loop_unwind_plans.len()
        invariant
            index <= loops.len(),
            loops == loop_scope_lists(*model),
            first_scope_error(model.cleanup_plans@, *model) is None,
            first_scope_error(return_scope_lists(*model).flatten(), *model) is None,
            first_scope_error(loops.take(index as int).flatten(), *model) is None,
        decreases loops.len() - index,
    {
        let checked = validate_scopes(&model.loop_unwind_plans[index].scopes, model);
        proof {
            assert(loops.take(index + 1) =~= loops.take(index as int).push(loops[index as int]));
            loops.take(index as int).lemma_flatten_push(loops[index as int]);
            lemma_first_scope_error_append(loops.take(index as int).flatten(), loops[index as int], *model);
        }
        match checked {
            Ok(()) => {},
            Err(message) => {
                proof {
                    assert(loops =~= loops.take(index + 1) + loops.skip(index + 1));
                    lemma_flatten_concat(loops.take(index + 1), loops.skip(index + 1));
                    lemma_first_scope_error_append(loops.take(index + 1).flatten(), loops.skip(index + 1).flatten(), *model);
                    lemma_first_scope_error_append(model.cleanup_plans@ + return_scope_lists(*model).flatten(), loops.flatten(), *model);
                    lemma_first_scope_error_append(model.cleanup_plans@, return_scope_lists(*model).flatten(), *model);
                }
                return Err(message);
            },
        }
        index = index + 1;
    }
    assert(loops.take(index as int) =~= loops);
    Ok(())
}

pub proof fn lemma_flatten_concat(a: Seq<Seq<ScopeCleanup>>, b: Seq<Seq<ScopeCleanup>>)
    ensures
        (a + b).flatten() == a.flatten() + b.flatten(),
    decreases b.len(),
{
    if b.len() == 0 {
        assert(a + b =~= a);
        assert(a.flatten() + b.flatten() =~= a.flatten());
    } else {
        lemma_flatten_concat(a, b.drop_last());
        assert((a + b) =~= (a + b.drop_last()).push(b.last()));
        (a + b.drop_last()).lemma_flatten_push(b.last());
        b.drop_last().lemma_flatten_push(b.last());
        assert(b =~= b.drop_last().push(b.last()));
        assert(a.flatten() + b.drop_last().flatten() + b.last() =~= a.flatten() + (b.drop_last().flatten() + b.last()));
    }
}


/// The action refers to something the model knows: a borrow it records, or one of its bindings.
pub open spec fn refers_to_known(action: CleanupAction, model: SemanticModel) -> bool {
    match action {
        CleanupAction::EndBorrow { borrow_id } => knows_borrow(model, borrow_id),
        CleanupAction::DropBinding { binding_index } => binding_index < model.bindings@.len(),
    }
}

/// A scope whose every action refers to something known and whose actions are all different.
pub open spec fn scope_is_sound(scope: ScopeCleanup, model: SemanticModel) -> bool {
    &&& forall|i: int| 0 <= i < scope.actions@.len() ==> refers_to_known(#[trigger] scope.actions@[i], model)
    &&& forall|i: int, j: int|
        0 <= i < j < scope.actions@.len() ==> #[trigger] scope.actions@[i] != #[trigger] scope.actions@[j]
}

proof fn lemma_action_error_none(actions: Seq<CleanupAction>, index: int, model: SemanticModel)
    requires
        0 <= index < actions.len(),
    ensures
        action_error(actions, index, model) is None <==> (refers_to_known(actions[index], model) && forall|j: int|
            0 <= j < index ==> #[trigger] actions[j] != actions[index]),
{
    match actions[index] {
        CleanupAction::EndBorrow { borrow_id } => {
            if ends_borrow_before(actions, index, borrow_id) {
                let j = choose|j: int| 0 <= j < index && actions[j] == (CleanupAction::EndBorrow { borrow_id });
                assert(actions[j] == actions[index]);
            }
        },
        CleanupAction::DropBinding { binding_index } => {
            if drops_binding_before(actions, index, binding_index) {
                let j = choose|j: int| 0 <= j < index && actions[j] == (CleanupAction::DropBinding { binding_index });
                assert(actions[j] == actions[index]);
            }
        },
    }
}

proof fn lemma_first_action_error_none(actions: Seq<CleanupAction>, end: int, model: SemanticModel)
    requires
        0 <= end <= actions.len(),
    ensures
        first_action_error(actions, end, model) is None <==> forall|i: int|
            0 <= i < end ==> (#[trigger] action_error(actions, i, model)) is None,
    decreases end,
{
    if end > 0 {
        lemma_first_action_error_none(actions, end - 1, model);
    }
}

proof fn lemma_scope_error_none(scope: ScopeCleanup, model: SemanticModel)
    ensures
        scope_error(scope, model) is None <==> scope_is_sound(scope, model),
{
    let actions = scope.actions@;
    lemma_first_action_error_none(actions, actions.len() as int, model);
    if scope_error(scope, model) is None {
        assert forall|i: int| 0 <= i < actions.len() implies refers_to_known(#[trigger] actions[i], model) by {
            assert(action_error(actions, i, model) is None);
            lemma_action_error_none(actions, i, model);
        }
        assert forall|i: int, j: int| 0 <= i < j < actions.len() implies #[trigger] actions[i] != #[trigger] actions[j] by {
            assert(action_error(actions, j, model) is None);
            lemma_action_error_none(actions, j, model);
        }
    }
    if scope_is_sound(scope, model) {
        assert forall|i: int| 0 <= i < actions.len() implies (#[trigger] action_error(actions, i, model)) is None by {
            assert(refers_to_known(actions[i], model));
            assert forall|j: int| 0 <= j < i implies #[trigger] actions[j] != actions[i] by {
                assert(actions[j] != actions[i]);
            }
            lemma_action_error_none(actions, i, model);
        }
    }
}

proof fn lemma_first_scope_error_none(scopes: Seq<ScopeCleanup>, model: SemanticModel)
    ensures
        first_scope_error(scopes, model) is None <==> forall|k: int|
            0 <= k < scopes.len() ==> scope_is_sound(#[trigger] scopes[k], model),
    decreases scopes.len(),
{
    if scopes.len() > 0 {
        lemma_first_scope_error_none(scopes.drop_last(), model);
        lemma_scope_error_none(scopes.last(), model);
        if first_scope_error(scopes, model) is None {
            assert forall|k: int| 0 <= k < scopes.len() implies scope_is_sound(#[trigger] scopes[k], model) by {
                if k < scopes.len() - 1 {
                    assert(scopes[k] == scopes.drop_last()[k]);
                }
            }
        } else {
            if first_scope_error(scopes.drop_last(), model) is Some {
                let k = choose|k: int| 0 <= k < scopes.drop_last().len() && !scope_is_sound(#[trigger] scopes.drop_last()[k], model);
                assert(scopes.drop_last()[k] == scopes[k]);
            }
        }
    }
}

/// Validation accepts a model exactly when every cleanup step of every scope it plans (the
/// scope plans, the return plans and the loop-exit plans) names a borrow or binding that the
/// model knows, and no scope repeats a step.
pub proof fn law_cleanup_validation(model: SemanticModel)
    ensures
        first_scope_error(all_scopes(model), model) is None <==> forall|k: int|
            0 <= k < all_scopes(model).len() ==> scope_is_sound(#[trigger] all_scopes(model)[k], model),
{
    lemma_first_scope_error_none(all_scopes(model), model);
}

} // verus!

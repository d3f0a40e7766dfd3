use vstd::prelude::*;

use crate::ast::Stmt;
use crate::text::{concat, message_with_text, owned, str_eq};

use super::generic_layout::emit_error;
use super::literals::{insert_text, lemma_sorted_listing, sorted_listing, strictly_sorted, text_views};
use super::native::NativeEmitError;

verus! {

/// The names among `locals` that the first `count` statements assign, nested blocks and
/// loops included.
pub open spec fn assigned_names(statements: Seq<Stmt>, count: nat, locals: Seq<Seq<char>>) -> Set<Seq<char>>
    decreases statements, count,
{
    if count == 0 || count > statements.len() {
        Set::empty()
    } else {
        assigned_names(statements, (count - 1) as nat, locals).union(
            statement_assigned(statements[count - 1], locals),
        )
    }
}

/// The names among `locals` that one statement assigns.
pub open spec fn statement_assigned(statement: Stmt, locals: Seq<Seq<char>>) -> Set<Seq<char>>
    decreases statement, 0nat,
{
    match statement {
        Stmt::Assignment { name, .. } => if locals.contains(name@) {
            set![name@]
        } else {
            Set::empty()
        },
        Stmt::Block(block) => assigned_names(block.statements@, block.statements@.len(), locals),
        Stmt::Loop(block) => assigned_names(block.statements@, block.statements@.len(), locals),
        _ => Set::empty(),
    }
}

fn contains_name(locals: &Vec<String>, name: &String) -> (found: bool)
    ensures
        found == text_views(locals@).contains(name@),
{
    let mut index: usize = 0;
    while index < locals.len()
        invariant
            index <= locals@.len(),
            forall|j: int| 0 <= j < index ==> locals@[j]@ != name@,
        decreases locals@.len() - index,
    {
        if str_eq(locals[index].as_str(), name.as_str()) {
            proof {
                assert(text_views(locals@)[index as int] == name@);
            }
            return true;
        }
        index = index + 1;
    }
    proof {
        if text_views(locals@).contains(name@) {
            let k = choose|k: int| 0 <= k < text_views(locals@).len() && text_views(locals@)[k] == name@;
            assert(locals@[k]@ == name@);
        }
    }
    false
}

fn collect_assigned(statements: &Vec<Stmt>, locals: &Vec<String>, names: &mut Vec<String>)
    requires
        strictly_sorted(text_views(old(names)@)),
    ensures
        strictly_sorted(text_views(final(names)@)),
        text_views(final(names)@).to_set() == text_views(old(names)@).to_set().union(
            assigned_names(statements@, statements@.len(), text_views(locals@)),
        ),
    decreases statements,
{
    let ghost start = text_views(names@).to_set();
    let ghost local_names = text_views(locals@);
    let mut index: usize = 0;
    proof {
        assert(start.union(assigned_names(statements@, 0, local_names)) =~= start);
    }
    while index < statements.len()
        invariant
            local_names == text_views(locals@),
            index <= statements@.len(),
            strictly_sorted(text_views(names@)),
            text_views(names@).to_set() == start.union(assigned_names(statements@, index as nat, local_names)),
        decreases statements@.len() - index,
    {
        let ghost before = text_views(names@).to_set();
        proof {
            assert(assigned_names(statements@, (index + 1) as nat, local_names) == assigned_names(
                statements@,
                index as nat,
                local_names,
            ).union(statement_assigned(statements@[index as int], local_names)));
        }
        match &statements[index] {
            Stmt::Assignment { name, .. } => {
                if contains_name(locals, name) {
                    insert_text(names, name);
                } else {
                    proof {
                        assert(before.union(Set::<Seq<char>>::empty()) =~= before);
                    }
                }
            },
            Stmt::Block(block) | Stmt::Loop(block) => {
                collect_assigned(&block.statements, locals, names);
            },
            _ => {
                proof {
                    assert(before.union(Set::<Seq<char>>::empty()) =~= before);
                }
            },
        }
        proof {
            assert(text_views(names@).to_set() =~= start.union(assigned_names(statements@, (index + 1) as nat, local_names)));
        }
        index = index + 1;
    }
}

/// The bindings among `locals` that `statements` assign, nested blocks and loops included,
/// sorted and each once: the values a loop carries from one iteration to the next.
pub fn assigned_outer_bindings(statements: &Vec<Stmt>, locals: &Vec<String>) -> (names: Vec<String>)
    ensures
        strictly_sorted(text_views(names@)),
        text_views(names@).to_set() == assigned_names(statements@, statements@.len(), text_views(locals@)),
        text_views(names@) == sorted_listing(assigned_names(statements@, statements@.len(), text_views(locals@))),
{
    let mut names: Vec<String> = Vec::new();
    proof {
        assert(text_views(names@).to_set() =~= Set::<Seq<char>>::empty());
    }
    collect_assigned(statements, locals, &mut names);
    proof {
        assert(Set::<Seq<char>>::empty().union(assigned_names(statements@, statements@.len(), text_views(locals@)))
            =~= assigned_names(statements@, statements@.len(), text_views(locals@)));
        lemma_sorted_listing(text_views(names@));
    }
    names
}

/// The position of the first of `locals` named `name`, or -1.
pub open spec fn local_position(locals: Seq<Seq<char>>, name: Seq<char>) -> int
    decreases locals.len(),
{
    if locals.len() == 0 {
        -1
    } else if local_position(locals.drop_last(), name) >= 0 {
        local_position(locals.drop_last(), name)
    } else if locals.last() == name {
        locals.len() - 1
    } else {
        -1
    }
}

proof fn lemma_local_position_prefix(locals: Seq<Seq<char>>, name: Seq<char>, count: int)
    requires
        0 <= count <= locals.len(),
        local_position(locals.take(count), name) >= 0,
    ensures
        local_position(locals, name) == local_position(locals.take(count), name),
    decreases locals.len(),
{
    if count == locals.len() {
        assert(locals.take(count) =~= locals);
    } else {
        assert(locals.drop_last().take(count) =~= locals.take(count));
        lemma_local_position_prefix(locals.drop_last(), name, count);
    }
}

fn position_of(locals: &Vec<String>, name: &String) -> (position: Option<usize>)
    ensures
        match position {
            Some(p) => p == local_position(text_views(locals@), name@),
            None => local_position(text_views(locals@), name@) == -1,
        },
{
    let ghost views = text_views(locals@);
    let mut index: usize = 0;
    while index < locals.len()
        invariant
            views == text_views(locals@),
            index <= locals@.len(),
            local_position(views.take(index as int), name@) == -1,
        decreases locals@.len() - index,
    {
        proof {
            assert(views.take(index + 1).drop_last() =~= views.take(index as int));
            assert(views.take(index + 1).last() == locals@[index as int]@);
        }
        if str_eq(locals[index].as_str(), name.as_str()) {
            proof {
                assert(local_position(views.take(index + 1), name@) == index);
                lemma_local_position_prefix(views, name@, index + 1);
            }
            return Some(index);
        }
        index = index + 1;
    }
    proof {
        assert(views.take(index as int) =~= views);
    }
    None
}

/// Where each carried name is found among the local bindings: the first binding of that name.
/// A name with no binding is an error.
pub fn carried_positions(locals: &Vec<String>, names: &Vec<String>) -> (result: Result<Vec<usize>, NativeEmitError>)
    ensures
        match result {
            Ok(positions) => positions@.len() == names@.len() && forall|i: int|
                0 <= i < names@.len() ==> #[trigger] positions@[i] == local_position(text_views(locals@), names@[i]@)
                    && positions@[i] < locals@.len(),
            Err(error) => exists|i: int|
                0 <= i < names@.len() && local_position(text_views(locals@), (#[trigger] names@[i])@) == -1 && (forall|j: int|
                    0 <= j < i ==> local_position(text_views(locals@), (#[trigger] names@[j])@) >= 0) && error.spec_message()
                    == "native binding `"@ + names@[i]@ + "` is unavailable"@,
        },
{
    let mut positions: Vec<usize> = Vec::new();
    let mut index: usize = 0;
    while index < names.len()
        invariant
            index <= names@.len(),
            positions@.len() == index,
            forall|i: int|
                0 <= i < index ==> #[trigger] positions@[i] == local_position(text_views(locals@), names@[i]@)
                    && positions@[i] < locals@.len(),
        decreases names@.len() - index,
    {
        match position_of(locals, &names[index]) {
            Some(position) => {
                proof {
                    lemma_local_position_bounds(text_views(locals@), names@[index as int]@);
                }
                positions.push(position);
            },
            None => {
                proof {
                    assert forall|j: int| 0 <= j < index implies local_position(
                        text_views(locals@),
                        (#[trigger] names@[j])@,
                    ) >= 0 by {
                        assert(positions@[j] == local_position(text_views(locals@), names@[j]@));
                    }
                    assert(local_position(text_views(locals@), names@[index as int]@) == -1);
                }
                return Err(emit_error(message_with_text("native binding `", names[index].as_str(), "` is unavailable")));
            },
        }
        index = index + 1;
    }
    Ok(positions)
}

proof fn lemma_local_position_bounds(locals: Seq<Seq<char>>, name: Seq<char>)
    ensures
        -1 <= local_position(locals, name) < locals.len(),
    decreases locals.len(),
{
    if locals.len() > 0 {
        lemma_local_position_bounds(locals.drop_last(), name);
    }
}


/// How control leaves a lowered statement list.
#[derive(Clone, Copy, Debug, PartialEq, Eq, Structural)]
pub enum FlowKind {
    /// Control reaches the end of the list.
    Fallthrough,
    /// The list returned from the verb.
    Return,
    /// The list left its loop with `break`.
    Break,
    /// The list jumped back to the head of its loop with `continue`.
    Continue,
}

/// What lowering a loop does around its body: the bindings it carries from one iteration to
/// the next (passed to the loop head and rebound at its exit), whether the end of the body
/// jumps back to the head, whether code continues after the loop at its exit block, and how
/// control leaves the loop.
pub struct LoopPlan {
    pub carried: Vec<String>,
    pub back_edge: bool,
    pub resumes_after: bool,
    pub flow_after: FlowKind,
}

/// Plans the lowering of a loop whose body is `statements`, inside a scope with the bindings
/// `locals`, given how control leaves the lowered body. The end of the body jumps back to the
/// head only where control falls through it; after a `break`, a `continue` or a fall-through
/// the code after the loop continues at its exit, and control falls through the loop; a
/// `return` leaves the loop as it leaves the body.
pub fn plan_loop(statements: &Vec<Stmt>, locals: &Vec<String>, body_flow: FlowKind) -> (plan: LoopPlan)
    ensures
        strictly_sorted(text_views(plan.carried@)),
        text_views(plan.carried@).to_set() == assigned_names(statements@, statements@.len(), text_views(locals@)),
        text_views(plan.carried@) == sorted_listing(assigned_names(statements@, statements@.len(), text_views(locals@))),
        plan.back_edge == (body_flow == FlowKind::Fallthrough),
        plan.resumes_after == (body_flow != FlowKind::Return),
        plan.flow_after == if body_flow == FlowKind::Return {
            FlowKind::Return
        } else {
            FlowKind::Fallthrough
        },
{
    let carried = assigned_outer_bindings(statements, locals);
    let back_edge = body_flow == FlowKind::Fallthrough;
    let resumes_after = match body_flow {
        FlowKind::Break | FlowKind::Fallthrough | FlowKind::Continue => true,
        FlowKind::Return => false,
    };
    let flow_after = if resumes_after { FlowKind::Fallthrough } else { body_flow };
    LoopPlan { carried, back_edge, resumes_after, flow_after }
}

/// Where a `break` or a `continue` inside a loop jumps: to the loop's head (`continue`) or to
/// its exit (`break`), passing the carried bindings found at `positions` among the locals.
pub struct LoopJump {
    pub to_header: bool,
    pub positions: Vec<usize>,
    pub flow: FlowKind,
}

/// The keyword of a loop jump.
pub open spec fn jump_keyword(continue_loop: bool) -> Seq<char> {
    if continue_loop {
        "continue"@
    } else {
        "break"@
    }
}

/// Plans a `continue` (when `continue_loop`) or a `break`, given the bindings that the
/// enclosing loop carries (none outside a loop) and the local bindings in scope. Outside a
/// loop the jump is an error; inside one it goes to the head or the exit, with the positions
/// of the carried bindings, and leaves its statement list with the matching flow.
pub fn plan_loop_jump(carried: Option<&Vec<String>>, locals: &Vec<String>, continue_loop: bool) -> (result: Result<
    LoopJump,
    NativeEmitError,
>)
    ensures
        carried is None ==> (result matches Err(error) && error.spec_message() == jump_keyword(continue_loop)
            + " has no native loop target"@),
        carried matches Some(names) ==> match result {
            Ok(jump) => {
                &&& jump.to_header == continue_loop
                &&& jump.flow == if continue_loop {
                    FlowKind::Continue
                } else {
                    FlowKind::Break
                }
                &&& jump.positions@.len() == names@.len()
                &&& forall|i: int|
                    0 <= i < names@.len() ==> #[trigger] jump.positions@[i] == local_position(
                        text_views(locals@),
                        names@[i]@,
                    ) && jump.positions@[i] < locals@.len()
            },
            Err(error) => exists|i: int|
                0 <= i < names@.len() && local_position(text_views(locals@), (#[trigger] names@[i])@) == -1 && (forall|j: int|
                    0 <= j < i ==> local_position(text_views(locals@), (#[trigger] names@[j])@) >= 0) && error.spec_message()
                    == "native binding `"@ + names@[i]@ + "` is unavailable"@,
        },
{
    let keyword = if continue_loop {
        "continue"
    } else {
        "break"
    };
    match carried {
        None => Err(emit_error(concat(owned(keyword), " has no native loop target"))),
        Some(names) => {
            let positions = carried_positions(locals, names)?;
            let flow = if continue_loop {
                FlowKind::Continue
            } else {
                FlowKind::Break
            };
            Ok(LoopJump { to_header: continue_loop, positions, flow })
        },
    }
}

proof fn lemma_assigned_names_grow(statements: Seq<Stmt>, count: nat, end: nat, locals: Seq<Seq<char>>)
    requires
        count <= end <= statements.len(),
    ensures
        assigned_names(statements, count, locals).subset_of(assigned_names(statements, end, locals)),
    decreases end - count,
{
    if end > count {
        lemma_assigned_names_grow(statements, count, (end - 1) as nat, locals);
    }
}

proof fn lemma_assigned_names_local(statements: Seq<Stmt>, count: nat, locals: Seq<Seq<char>>)
    ensures
        assigned_names(statements, count, locals).subset_of(locals.to_set()),
    decreases statements, count,
{
    if count > 0 && count <= statements.len() {
        lemma_assigned_names_local(statements, (count - 1) as nat, locals);
        let statement = statements[count - 1];
        assert(assigned_names(statements, count, locals) == assigned_names(statements, (count - 1) as nat, locals).union(
            statement_assigned(statement, locals),
        ));
        match statement {
            Stmt::Block(block) => {
                assert(decreases_to!(statements => statements[count - 1]));
                lemma_assigned_names_local(block.statements@, block.statements@.len(), locals);
            },
            Stmt::Loop(block) => {
                assert(decreases_to!(statements => statements[count - 1]));
                lemma_assigned_names_local(block.statements@, block.statements@.len(), locals);
            },
            Stmt::Assignment { name, .. } => {
                if locals.contains(name@) {
                    assert(locals.to_set().contains(name@));
                }
            },
            _ => {},
        }
        assert(statement_assigned(statement, locals).subset_of(locals.to_set()));
    }
}

/// A loop carries every local binding that its body assigns, however deeply the assignment
/// sits in nested blocks and loops, and nothing but local bindings: an assignment to a local
/// among the statements is carried, and whatever a nested block or loop carries, the
/// statements around it carry too.
pub proof fn law_carried_bindings(statements: Seq<Stmt>, locals: Seq<Seq<char>>)
    ensures
        assigned_names(statements, statements.len(), locals).subset_of(locals.to_set()),
        forall|i: int|
            0 <= i < statements.len() ==> (#[trigger] statements[i] matches Stmt::Assignment { name, .. } ==> (locals.contains(
                name@,
            ) ==> assigned_names(statements, statements.len(), locals).contains(name@))),
        forall|i: int|
            0 <= i < statements.len() ==> (#[trigger] statements[i] matches Stmt::Loop(block) ==> assigned_names(
                block.statements@,
                block.statements@.len(),
                locals,
            ).subset_of(assigned_names(statements, statements.len(), locals))),
        forall|i: int|
            0 <= i < statements.len() ==> (#[trigger] statements[i] matches Stmt::Block(block) ==> assigned_names(
                block.statements@,
                block.statements@.len(),
                locals,
            ).subset_of(assigned_names(statements, statements.len(), locals))),
{
    lemma_assigned_names_local(statements, statements.len(), locals);
    assert forall|i: int| 0 <= i < statements.len() implies statement_assigned(#[trigger] statements[i], locals).subset_of(
        assigned_names(statements, statements.len(), locals),
    ) by {
        lemma_assigned_names_grow(statements, (i + 1) as nat, statements.len(), locals);
    }
}

} // verus!

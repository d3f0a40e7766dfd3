use actus::ast::Role;
use actus::codegen::model::validate_cleanup_plans;
use actus::semantic::{Binding, BindingState, CleanupAction, ScopeCleanup, SemanticModel};
use actus::span::SourceSpan;

fn model_with(action: CleanupAction) -> SemanticModel {
    SemanticModel {
        bindings: Vec::new(),
        borrows: Vec::new(),
        cleanup_plans: vec![ScopeCleanup { depth: 1, actions: vec![action] }],
        return_unwind_plans: Vec::new(),
        loop_unwind_plans: Vec::new(),
    }
}

#[test]
fn rejects_cleanup_actions_with_unknown_references() {
    let binding = model_with(CleanupAction::DropBinding { binding_index: 0 });
    let borrow = model_with(CleanupAction::EndBorrow { borrow_id: 0 });

    assert!(validate_cleanup_plans(&binding).is_err());
    assert!(validate_cleanup_plans(&borrow).is_err());
}

#[test]
fn rejects_duplicate_cleanup_actions_in_one_scope() {
    let model = SemanticModel {
        bindings: vec![Binding {
            name: "value".to_owned(),
            role: Role::Erg,
            span: SourceSpan::new(0, 1),
            state: BindingState::Active,
        }],
        borrows: Vec::new(),
        cleanup_plans: vec![ScopeCleanup {
            depth: 1,
            actions: vec![
                CleanupAction::DropBinding { binding_index: 0 },
                CleanupAction::DropBinding { binding_index: 0 },
            ],
        }],
        return_unwind_plans: Vec::new(),
        loop_unwind_plans: Vec::new(),
    };

    assert!(validate_cleanup_plans(&model).is_err());
}

use vstd::prelude::*;

use crate::ast::{
    GenericParam, Role, TypeName, TypeView, copy_type_name, parameter_views, type_view, type_views,
};
use crate::span::SourceSpan;
use crate::text::{push_decimal, owned, concat, spec_decimal};

verus! {

/// A use of a generic struct or enum at concrete type arguments, found by semantic analysis.
#[derive(Debug)]
pub struct GenericInstance {
    pub name: String,
    pub arguments: Vec<TypeName>,
    pub canonical_key: String,
}

/// A `perform` method that semantic analysis found reachable from the entry verb.
#[derive(Clone, Debug)]
pub struct ReachablePerformance {
    pub role_name: String,
    pub target_type: String,
    pub method_name: String,
}

/// How control leaves a loop.
#[derive(Clone, Copy, Debug, PartialEq, Eq, Structural)]
pub enum LoopExitKind {
    Break,
    Continue,
}

/// The ownership state of a binding at the end of analysis.
#[derive(Clone, Copy, Debug, PartialEq, Eq, Structural)]
pub enum BindingState {
    Active,
    Moved,
    Dropped,
}

/// A local binding that owns or observes a value.
#[derive(Clone, Debug)]
pub struct Binding {
    pub name: String,
    pub role: Role,
    pub span: SourceSpan,
    pub state: BindingState,
}

/// A borrow of a binding, identified by `id`.
#[derive(Clone, Copy, Debug)]
pub struct Borrow {
    pub id: usize,
    pub binding_index: usize,
    pub span: SourceSpan,
}

/// One step of leaving a scope.
#[derive(Clone, Copy, Debug, PartialEq, Eq, Structural)]
pub enum CleanupAction {
    EndBorrow { borrow_id: usize },
    DropBinding { binding_index: usize },
}

/// What leaving the scope at nesting `depth` must do, in order.
#[derive(Clone, Debug)]
pub struct ScopeCleanup {
    pub depth: usize,
    pub actions: Vec<CleanupAction>,
}

/// The scopes that a `return` at `span` leaves, innermost first.
#[derive(Clone, Debug)]
pub struct ReturnUnwindPlan {
    pub span: SourceSpan,
    pub scopes: Vec<ScopeCleanup>,
}

/// The scopes that a `break` or `continue` at `span` leaves, innermost first.
#[derive(Clone, Debug)]
pub struct LoopUnwindPlan {
    pub span: SourceSpan,
    pub kind: LoopExitKind,
    pub scopes: Vec<ScopeCleanup>,
}

/// The ownership facts that code generation needs from semantic analysis.
#[derive(Clone, Debug)]
pub struct SemanticModel {
    pub bindings: Vec<Binding>,
    pub borrows: Vec<Borrow>,
    pub cleanup_plans: Vec<ScopeCleanup>,
    pub return_unwind_plans: Vec<ReturnUnwindPlan>,
    pub loop_unwind_plans: Vec<LoopUnwindPlan>,
}

/// Why a generic definition cannot be instantiated.
#[derive(Debug)]
pub enum SubstitutionError {
    ArityMismatch { name: String, expected: usize, found: usize, span: SourceSpan },
}

/// How an arity mismatch is described.
pub open spec fn arity_message(name: Seq<char>, expected: nat, found: nat) -> Seq<char> {
    "`"@ + name + "` expects "@ + spec_decimal(expected) + " type arguments, found "@ + spec_decimal(found)
}

impl SubstitutionError {
    pub open spec fn spec_describe(&self) -> Seq<char> {
        match self {
            SubstitutionError::ArityMismatch { name, expected, found, .. } => arity_message(
                name@,
                *expected as nat,
                *found as nat,
            ),
        }
    }

    /// A one-line description of the error.
    pub fn describe(&self) -> (text: String)
        ensures
            text@ == self.spec_describe(),
    {
        match self {
            SubstitutionError::ArityMismatch { name, expected, found, .. } => {
                let text = owned("`");
                let text = concat(text, name.as_str());
                let mut text = concat(text, "` expects ");
                push_decimal(&mut text, *expected);
                let mut text = concat(text, " type arguments, found ");
                push_decimal(&mut text, *found);
                text
            },
        }
    }
}

/// The index of the first entry of `names` equal to `name`, or -1.
pub open spec fn first_index_of(names: Seq<Seq<char>>, name: Seq<char>) -> int
    decreases names.len(),
{
    if names.len() == 0 {
        -1
    } else if first_index_of(names.drop_last(), name) >= 0 {
        first_index_of(names.drop_last(), name)
    } else if names.last() == name {
        names.len() - 1
    } else {
        -1
    }
}

/// `ty` with each bare occurrence of `parameters[i]` replaced by `arguments[i]`.
pub open spec fn substitute(
    parameters: Seq<Seq<char>>,
    arguments: Seq<TypeView>,
    ty: TypeView,
) -> TypeView
    decreases ty,
{
    let index = first_index_of(parameters, ty.name);
    if ty.arguments.len() == 0 && 0 <= index < arguments.len() {
        arguments[index]
    } else {
        TypeView {
            name: ty.name,
            arguments: Seq::new(
                ty.arguments.len(),
                |i: int|
                    if 0 <= i < ty.arguments.len() {
                        substitute(parameters, arguments, ty.arguments[i])
                    } else {
                        ty
                    },
            ),
            span: ty.span,
        }
    }
}

/// The assignment of type arguments to the generic parameters of one definition.
#[derive(Debug)]
pub struct TypeSubstitution {
    pub parameters: Vec<String>,
    pub arguments: Vec<TypeName>,
}

impl TypeSubstitution {
    pub open spec fn parameter_views(&self) -> Seq<Seq<char>> {
        self.parameters@.map_values(|name: String| name@)
    }

    pub open spec fn argument_views(&self) -> Seq<TypeView> {
        type_views(self.arguments@)
    }

    /// What `apply` makes of `ty`.
    pub open spec fn spec_apply(&self, ty: TypeView) -> TypeView {
        substitute(self.parameter_views(), self.argument_views(), ty)
    }

    /// Binds `parameters` to `arguments`, which must be as many.
    pub fn for_type(
        name: &str,
        parameters: &Vec<GenericParam>,
        arguments: &Vec<TypeName>,
        span: SourceSpan,
    ) -> (result: Result<TypeSubstitution, SubstitutionError>)
        ensures
            parameters@.len() == arguments@.len() <==> result is Ok,
            result matches Ok(substitution) ==> {
                &&& substitution.parameters@.len() == parameters@.len()
                &&& substitution.arguments@.len() == arguments@.len()
                &&& substitution.parameter_views() == parameter_views(parameters@)
                &&& substitution.argument_views() == type_views(arguments@)
            },
            result matches Err(SubstitutionError::ArityMismatch { name: n, expected, found, span: s }) ==> {
                &&& n@ == name@
                &&& expected == parameters@.len()
                &&& found == arguments@.len()
                &&& s == span
            },
    {
        if parameters.len() != arguments.len() {
            return Err(SubstitutionError::ArityMismatch {
                name: owned(name),
                expected: parameters.len(),
                found: arguments.len(),
                span,
            });
        }
        let mut names: Vec<String> = Vec::new();
        let mut copies: Vec<TypeName> = Vec::new();
        let mut index: usize = 0;
        while index < parameters.len()
            invariant
                parameters@.len() == arguments@.len(),
                index <= parameters@.len(),
                names@.len() == index,
                copies@.len() == index,
                forall|j: int| 0 <= j < index ==> (#[trigger] names@[j])@ == parameters@[j].name@,
                forall|j: int|
                    0 <= j < index ==> type_view(#[trigger] copies@[j]) == type_view(arguments@[j]),
            decreases parameters@.len() - index,
        {
            names.push(parameters[index].name.clone());
            copies.push(copy_type_name(&arguments[index]));
            index = index + 1;
        }
        let substitution = TypeSubstitution { parameters: names, arguments: copies };
        assert(substitution.parameter_views() =~= parameter_views(parameters@));
        assert(substitution.argument_views() =~= type_views(arguments@));
        Ok(substitution)
    }

    fn parameter_index(&self, name: &String) -> (index: Option<usize>)
        ensures
            match index {
                Some(i) => i == first_index_of(self.parameter_views(), name@) && i < self.parameters@.len(),
                None => first_index_of(self.parameter_views(), name@) == -1,
            },
    {
        let mut index: usize = 0;
        while index < self.parameters.len()
            invariant
                index <= self.parameters@.len(),
                first_index_of(self.parameter_views().take(index as int), name@) == -1,
            decreases self.parameters@.len() - index,
        {
            proof {
                assert(self.parameter_views().take(index + 1).drop_last()
                    =~= self.parameter_views().take(index as int));
            }
            if self.parameters[index] == *name {
                proof {
                    lemma_first_index_prefix(self.parameter_views(), name@, index + 1);
                }
                return Some(index);
            }
            index = index + 1;
        }
        proof {
            assert(self.parameter_views().take(index as int) =~= self.parameter_views());
        }
        None
    }

    /// `ty` with each bare parameter name replaced by its argument.
    pub fn apply(&self, ty: &TypeName) -> (result: TypeName)
        requires
            self.parameters@.len() == self.arguments@.len(),
        ensures
            type_view(result) == self.spec_apply(type_view(*ty)),
        decreases ty,
    {
        if ty.arguments.len() == 0 {
            if let Some(index) = self.parameter_index(&ty.name) {
                let result = copy_type_name(&self.arguments[index]);
                assert(self.argument_views()[index as int] == type_view(self.arguments@[index as int]));
                return result;
            }
        }
        let mut arguments: Vec<TypeName> = Vec::new();
        let mut index: usize = 0;
        while index < ty.arguments.len()
            invariant
                self.parameters@.len() == self.arguments@.len(),
                index <= ty.arguments@.len(),
                arguments@.len() == index,
                forall|j: int|
                    0 <= j < index ==> type_view(#[trigger] arguments@[j]) == self.spec_apply(
                        type_view(ty.arguments@[j]),
                    ),
            decreases ty.arguments@.len() - index,
        {
            let argument = self.apply(&ty.arguments[index]);
            arguments.push(argument);
            index = index + 1;
        }
        let result = TypeName { name: ty.name.clone(), arguments, span: ty.span };
        assert(type_view(result).arguments =~= self.spec_apply(type_view(*ty)).arguments);
        result
    }
}

/// The first match in a prefix of length `end` is the first match overall.
pub proof fn lemma_first_index_prefix(names: Seq<Seq<char>>, name: Seq<char>, end: int)
    requires
        0 < end <= names.len(),
        first_index_of(names.take(end - 1), name) == -1,
        names[end - 1] == name,
    ensures
        first_index_of(names, name) == end - 1,
    decreases names.len(),
{
    if end < names.len() {
        assert(names.drop_last().take(end - 1) =~= names.take(end - 1));
        lemma_first_index_prefix(names.drop_last(), name, end);
    } else {
        assert(names.drop_last() =~= names.take(end - 1));
    }
}

} // verus!

use vstd::prelude::*;

use crate::ast::{
    EnumDef, EnumDefView, EnumField, EnumFieldView, EnumPayload, EnumVariant, EnumVariantView,
    GenericParam, PayloadView, Program, StructDef, StructDefView, StructField, StructFieldView,
    TopLevelDecl, TypeName, TypeView, builtin_enum_definitions, copy_enum_def, copy_struct_def,
    copy_type_name, enum_def_view, enum_def_views, enum_field_view, enum_variant_view,
    parameter_views, struct_def_view, struct_def_views, struct_field_view, type_view,
    type_views,
};
use crate::semantic::{GenericInstance, TypeSubstitution, substitute};
use crate::span::SourceSpan;
use crate::text::{concat, owned};

use super::generic_layout::{
    builtin_enum_views, canonical_key, canonical_type_name, declared_enums,
    declared_structs, find_enum, find_enum_index, find_struct, find_struct_index,
    substitution_message, text_views, };
use super::native::NativeEmitError;

verus! {

/// The struct definitions of a program, in order; a later definition shadows an earlier one
/// of the same name.
pub fn struct_definitions(program: &Program) -> (structs: Vec<StructDef>)
    ensures
        struct_def_views(structs@) == declared_structs(program.declarations@),
{
    let mut structs: Vec<StructDef> = Vec::new();
    let mut index: usize = 0;
    while index < program.declarations.len()
        invariant
            index <= program.declarations@.len(),
            struct_def_views(structs@) == declared_structs(program.declarations@.take(index as int)),
        decreases program.declarations@.len() - index,
    {
        proof {
            assert(program.declarations@.take(index + 1).drop_last() =~= program.declarations@.take(index as int));
        }
        match &program.declarations[index] {
            TopLevelDecl::Struct(definition) => {
                let ghost before = struct_def_views(structs@);
                structs.push(copy_struct_def(definition));
                assert(struct_def_views(structs@) =~= before + seq![struct_def_view(*definition)]);
            },
            _ => {
                assert(struct_def_views(structs@) =~= declared_structs(program.declarations@.take(index + 1)));
            },
        }
        index = index + 1;
    }
    assert(program.declarations@.take(index as int) =~= program.declarations@);
    structs
}

/// The built-in enums followed by the enum definitions of a program.
pub fn enum_definitions(program: &Program) -> (enums: Vec<EnumDef>)
    ensures
        enum_def_views(enums@) == builtin_enum_views() + declared_enums(program.declarations@),
{
    let mut enums = builtin_enum_definitions();
    proof {
        super::generic_layout::lemma_builtin_enum_views(enums@);
    }
    let mut index: usize = 0;
    while index < program.declarations.len()
        invariant
            index <= program.declarations@.len(),
            enum_def_views(enums@) == builtin_enum_views() + declared_enums(program.declarations@.take(index as int)),
        decreases program.declarations@.len() - index,
    {
        proof {
            assert(program.declarations@.take(index + 1).drop_last() =~= program.declarations@.take(index as int));
        }
        match &program.declarations[index] {
            TopLevelDecl::Enum(definition) => {
                let ghost before = enum_def_views(enums@);
                enums.push(copy_enum_def(definition));
                assert(enum_def_views(enums@) =~= before + seq![enum_def_view(*definition)]);
                assert(enum_def_views(enums@) =~= builtin_enum_views() + declared_enums(program.declarations@.take(index + 1)));
            },
            _ => {
                assert(enum_def_views(enums@) =~= builtin_enum_views() + declared_enums(program.declarations@.take(index + 1)));
            },
        }
        index = index + 1;
    }
    assert(program.declarations@.take(index as int) =~= program.declarations@);
    enums
}

/// `name` names a struct whose (last) definition has generic parameters.
pub open spec fn is_generic_struct(structs: Seq<StructDefView>, name: Seq<char>) -> bool {
    let i = find_struct(structs, name);
    0 <= i < structs.len() && structs[i].parameters.len() > 0
}

/// `name` names an enum whose (last) definition has generic parameters.
pub open spec fn is_generic_enum(enums: Seq<EnumDefView>, name: Seq<char>) -> bool {
    let i = find_enum(enums, name);
    0 <= i < enums.len() && enums[i].parameters.len() > 0
}

/// The set of characters sequences that `names` holds.
pub open spec fn name_set(names: Seq<String>) -> Set<Seq<char>> {
    Set::new(|name: Seq<char>| text_views(names).contains(name))
}

/// The names of the generic structs.
pub fn generic_struct_names(structs: &Vec<StructDef>) -> (names: Vec<String>)
    ensures
        name_set(names@) == Set::new(|name: Seq<char>| is_generic_struct(struct_def_views(structs@), name)),
{
    let ghost views = struct_def_views(structs@);
    let mut names: Vec<String> = Vec::new();
    let mut index: usize = 0;
    while index < structs.len()
        invariant
            index <= structs@.len(),
            views == struct_def_views(structs@),
            forall|name: Seq<char>| text_views(names@).contains(name) <==> (is_generic_struct(views, name)
                && find_struct(views, name) < index),
        decreases structs@.len() - index,
    {
        let ghost before = names@;
        let definition = &structs[index];
        proof {
            assert(views[index as int] == struct_def_view(*definition));
            assert(views[index as int].name == definition.name@);
            assert(views[index as int].parameters.len() == definition.generic_parameters@.len());
        }
        let last = find_struct_index(structs, &definition.name);
        let pushed = definition.generic_parameters.len() > 0 && last == Some(index);
        if pushed {
            names.push(definition.name.clone());
            assert(names@.drop_last() =~= before);
        }
        let ghost current = index as int;
        let ghost defined = definition.name@;
        proof {
            assert(pushed <==> (views[current].parameters.len() > 0 && find_struct(views, defined) == current));
            if pushed {
                assert(names@.last()@ == defined);
            } else {
                assert(names@ == before);
            }
        }
        index = index + 1;
        proof {
            lemma_struct_names_step(views, before, names@, current, defined, pushed);
            assert(index as int == current + 1);
            assert forall|name: Seq<char>| text_views(names@).contains(name) <==> (is_generic_struct(views, name)
                && find_struct(views, name) < index) by {
                assert(text_views(names@).contains(name) <==> (is_generic_struct(views, name)
                && find_struct(views, name) < current + 1));
            }
        }
    }
    assert(name_set(names@) =~= Set::new(|name: Seq<char>| is_generic_struct(struct_def_views(structs@), name))) by {
        assert forall|name: Seq<char>| is_generic_struct(views, name) implies find_struct(views, name) < index by {
            lemma_find_struct_found(views, name);
        }
    }
    names
}

/// The names of the generic enums.
pub fn generic_enum_names(enums: &Vec<EnumDef>) -> (names: Vec<String>)
    ensures
        name_set(names@) == Set::new(|name: Seq<char>| is_generic_enum(enum_def_views(enums@), name)),
{
    let ghost views = enum_def_views(enums@);
    let mut names: Vec<String> = Vec::new();
    let mut index: usize = 0;
    while index < enums.len()
        invariant
            index <= enums@.len(),
            views == enum_def_views(enums@),
            forall|name: Seq<char>| text_views(names@).contains(name) <==> (is_generic_enum(views, name)
                && find_enum(views, name) < index),
        decreases enums@.len() - index,
    {
        let ghost before = names@;
        let definition = &enums[index];
        proof {
            assert(views[index as int] == enum_def_view(*definition));
            assert(views[index as int].name == definition.name@);
            assert(views[index as int].parameters.len() == definition.generic_parameters@.len());
        }
        let last = find_enum_index(enums, &definition.name);
        let pushed = definition.generic_parameters.len() > 0 && last == Some(index);
        if pushed {
            names.push(definition.name.clone());
            assert(names@.drop_last() =~= before);
        }
        let ghost current = index as int;
        let ghost defined = definition.name@;
        proof {
            assert(pushed <==> (views[current].parameters.len() > 0 && find_enum(views, defined) == current));
            if pushed {
                assert(names@.last()@ == defined);
            } else {
                assert(names@ == before);
            }
        }
        index = index + 1;
        proof {
            lemma_enum_names_step(views, before, names@, current, defined, pushed);
            assert(index as int == current + 1);
            assert forall|name: Seq<char>| text_views(names@).contains(name) <==> (is_generic_enum(views, name)
                && find_enum(views, name) < index) by {
                assert(text_views(names@).contains(name) <==> (is_generic_enum(views, name)
                && find_enum(views, name) < current + 1));
            }
        }
    }
    assert(name_set(names@) =~= Set::new(|name: Seq<char>| is_generic_enum(enum_def_views(enums@), name))) by {
        assert forall|name: Seq<char>| is_generic_enum(views, name) implies find_enum(views, name) < index by {
            lemma_find_enum_found(views, name);
        }
    }
    names
}

proof fn lemma_text_views_push_contains(before: Seq<String>, after: Seq<String>, name: Seq<char>)
    requires
        after == before || (after.len() == before.len() + 1 && after.drop_last() == before),
    ensures
        after == before ==> (text_views(after).contains(name) == text_views(before).contains(name)),
        after != before ==> (text_views(after).contains(name) <==> (text_views(before).contains(name)
            || after.last()@ == name)),
{
    if after != before {
        assert(text_views(after) =~= text_views(before).push(after.last()@));
        if text_views(after).contains(name) {
            let j = choose|j: int| 0 <= j < text_views(after).len() && text_views(after)[j] == name;
            if j < before.len() {
                assert(text_views(before)[j] == name);
            }
        }
        if text_views(before).contains(name) {
            let j = choose|j: int| 0 <= j < text_views(before).len() && text_views(before)[j] == name;
            assert(text_views(after)[j] == name);
        }
        if after.last()@ == name {
            assert(text_views(after)[before.len() as int] == name);
        }
    }
}

proof fn lemma_struct_names_step(
    views: Seq<StructDefView>,
    before: Seq<String>,
    after: Seq<String>,
    current: int,
    defined: Seq<char>,
    pushed: bool,
)
    requires
        0 <= current < views.len(),
        views[current].name == defined,
        forall|name: Seq<char>| text_views(before).contains(name) <==> (is_generic_struct(views, name)
            && find_struct(views, name) < current),
        pushed <==> (views[current].parameters.len() > 0 && find_struct(views, defined) == current),
        pushed ==> after.len() == before.len() + 1 && after.drop_last() == before && after.last()@ == defined,
        !pushed ==> after == before,
    ensures
        forall|name: Seq<char>| text_views(after).contains(name) <==> (is_generic_struct(views, name)
            && find_struct(views, name) < current + 1),
{
    assert forall|name: Seq<char>| text_views(after).contains(name) <==> (is_generic_struct(views, name)
        && find_struct(views, name) < current + 1) by {
        lemma_text_views_push_contains(before, after, name);
        lemma_find_struct_found(views, name);
        lemma_find_struct_found(views, defined);
        assert(text_views(before).contains(name) <==> (is_generic_struct(views, name) && find_struct(views, name) < current));
        if find_struct(views, name) == current {
            assert(name == defined);
        }
        if pushed && name == defined {
            assert(find_struct(views, name) == current);
        }
    }
}

/// A struct found by name has that name.
proof fn lemma_find_struct_found(structs: Seq<StructDefView>, name: Seq<char>)
    ensures
        -1 <= find_struct(structs, name) < structs.len(),
        find_struct(structs, name) >= 0 ==> structs[find_struct(structs, name)].name == name,
        forall|i: int| 0 <= i < structs.len() && structs[i].name == name ==> i <= find_struct(structs, name),
    decreases structs.len(),
{
    if structs.len() > 0 {
        lemma_find_struct_found(structs.drop_last(), name);
        assert forall|i: int| 0 <= i < structs.len() - 1 implies structs.drop_last()[i] == structs[i] by {}
    }
}

proof fn lemma_enum_names_step(
    views: Seq<EnumDefView>,
    before: Seq<String>,
    after: Seq<String>,
    current: int,
    defined: Seq<char>,
    pushed: bool,
)
    requires
        0 <= current < views.len(),
        views[current].name == defined,
        forall|name: Seq<char>| text_views(before).contains(name) <==> (is_generic_enum(views, name)
            && find_enum(views, name) < current),
        pushed <==> (views[current].parameters.len() > 0 && find_enum(views, defined) == current),
        pushed ==> after.len() == before.len() + 1 && after.drop_last() == before && after.last()@ == defined,
        !pushed ==> after == before,
    ensures
        forall|name: Seq<char>| text_views(after).contains(name) <==> (is_generic_enum(views, name)
            && find_enum(views, name) < current + 1),
{
    assert forall|name: Seq<char>| text_views(after).contains(name) <==> (is_generic_enum(views, name)
        && find_enum(views, name) < current + 1) by {
        lemma_text_views_push_contains(before, after, name);
        lemma_find_enum_found(views, name);
        lemma_find_enum_found(views, defined);
        assert(text_views(before).contains(name) <==> (is_generic_enum(views, name) && find_enum(views, name) < current));
        if find_enum(views, name) == current {
            assert(name == defined);
        }
        if pushed && name == defined {
            assert(find_enum(views, name) == current);
        }
    }
}

/// An enum found by name has that name.
proof fn lemma_find_enum_found(enums: Seq<EnumDefView>, name: Seq<char>)
    ensures
        -1 <= find_enum(enums, name) < enums.len(),
        find_enum(enums, name) >= 0 ==> enums[find_enum(enums, name)].name == name,
        forall|i: int| 0 <= i < enums.len() && enums[i].name == name ==> i <= find_enum(enums, name),
    decreases enums.len(),
{
    if enums.len() > 0 {
        lemma_find_enum_found(enums.drop_last(), name);
        assert forall|i: int| 0 <= i < enums.len() - 1 implies enums.drop_last()[i] == enums[i] by {}
    }
}

/// A type applied to arguments whose name is generic becomes a plain type named by its
/// canonical key; any other type stays as it is.
pub open spec fn specialize_type_spec(ty: TypeView, generic: Set<Seq<char>>) -> TypeView {
    if ty.arguments.len() == 0 || !generic.contains(ty.name) {
        ty
    } else {
        TypeView { name: canonical_key(ty), arguments: Seq::empty(), span: ty.span }
    }
}

fn contains_name(names: &Vec<String>, name: &String) -> (found: bool)
    ensures
        found == name_set(names@).contains(name@),
{
    let mut index: usize = 0;
    while index < names.len()
        invariant
            index <= names@.len(),
            forall|j: int| 0 <= j < index ==> names@[j]@ != name@,
        decreases names@.len() - index,
    {
        if names[index] == *name {
            assert(text_views(names@)[index as int] == name@);
            return true;
        }
        index = index + 1;
    }
    proof {
        if text_views(names@).contains(name@) {
            let j = choose|j: int| 0 <= j < text_views(names@).len() && text_views(names@)[j] == name@;
            assert(names@[j]@ == name@);
        }
    }
    false
}

/// Replaces an application of a generic type by a plain type named by its canonical key.
pub fn specialize_type(ty: &TypeName, generic_names: &Vec<String>) -> (specialized: TypeName)
    ensures
        type_view(specialized) == specialize_type_spec(type_view(*ty), name_set(generic_names@)),
{
    if ty.arguments.len() == 0 || !contains_name(generic_names, &ty.name) {
        return copy_type_name(ty);
    }
    let specialized = TypeName { name: canonical_type_name(ty), arguments: Vec::new(), span: ty.span };
    assert(type_view(specialized).arguments =~= Seq::<TypeView>::empty());
    specialized
}

/// The substitution of an instance's arguments for a definition's parameters.
pub fn substitution_for_instance(
    instance: &GenericInstance,
    name: &str,
    parameters: &Vec<GenericParam>,
    span: SourceSpan,
) -> (result: Result<TypeSubstitution, NativeEmitError>)
    ensures
        result is Ok <==> parameters@.len() == instance.arguments@.len(),
        result matches Ok(substitution) ==> {
            &&& substitution.parameters@.len() == substitution.arguments@.len()
            &&& substitution.parameter_views() == parameter_views(parameters@)
            &&& substitution.argument_views() == type_views(instance.arguments@)
        },
        result matches Err(error) ==> error.spec_message() == substitution_message(
            name@,
            parameters@.len() as nat,
            instance.arguments@.len() as nat,
        ),
{
    match TypeSubstitution::for_type(name, parameters, &instance.arguments, span) {
        Ok(substitution) => Ok(substitution),
        Err(error) => Err(
            NativeEmitError(concat(owned("generic substitution failed: "), error.describe().as_str())),
        ),
    }
}

/// A field after substitution and specialization of its type.
pub open spec fn specialize_field_spec(
    field: StructFieldView,
    parameters: Seq<Seq<char>>,
    arguments: Seq<TypeView>,
    generic: Set<Seq<char>>,
) -> StructFieldView {
    StructFieldView {
        role: field.role,
        name: field.name,
        ty: specialize_type_spec(substitute(parameters, arguments, field.ty), generic),
        span: field.span,
    }
}

pub fn specialize_field(
    field: &StructField,
    substitution: &TypeSubstitution,
    generic_names: &Vec<String>,
) -> (result: Result<StructField, NativeEmitError>)
    requires
        substitution.parameters@.len() == substitution.arguments@.len(),
    ensures
        result matches Ok(specialized) && struct_field_view(specialized) == specialize_field_spec(
            struct_field_view(*field),
            substitution.parameter_views(),
            substitution.argument_views(),
            name_set(generic_names@),
        ),
{
    Ok(
        StructField {
            role: field.role,
            name: field.name.clone(),
            ty: specialize_type(&substitution.apply(&field.ty), generic_names),
            span: field.span,
        },
    )
}

/// A variant after substitution and specialization of each payload type.
pub open spec fn specialize_variant_spec(
    variant: EnumVariantView,
    parameters: Seq<Seq<char>>,
    arguments: Seq<TypeView>,
    generic: Set<Seq<char>>,
) -> EnumVariantView {
    EnumVariantView {
        name: variant.name,
        payload: match variant.payload {
            PayloadView::Unit => PayloadView::Unit,
            PayloadView::Tuple(types) => PayloadView::Tuple(
                types.map_values(|ty: TypeView| specialize_type_spec(substitute(parameters, arguments, ty), generic)),
            ),
            PayloadView::Struct(fields) => PayloadView::Struct(
                fields.map_values(
                    |field: EnumFieldView|
                        EnumFieldView {
                            name: field.name,
                            ty: specialize_type_spec(substitute(parameters, arguments, field.ty), generic),
                            span: field.span,
                        },
                ),
            ),
        },
        span: variant.span,
    }
}

pub fn specialize_variant(
    variant: &EnumVariant,
    substitution: &TypeSubstitution,
    generic_names: &Vec<String>,
) -> (result: Result<EnumVariant, NativeEmitError>)
    requires
        substitution.parameters@.len() == substitution.arguments@.len(),
    ensures
        result matches Ok(specialized) && enum_variant_view(specialized) == specialize_variant_spec(
            enum_variant_view(*variant),
            substitution.parameter_views(),
            substitution.argument_views(),
            name_set(generic_names@),
        ),
{
    let ghost parameters = substitution.parameter_views();
    let ghost arguments = substitution.argument_views();
    let ghost generic = name_set(generic_names@);
    let payload = match &variant.payload {
        EnumPayload::Unit => EnumPayload::Unit,
        EnumPayload::Tuple(types) => {
            let mut specialized: Vec<TypeName> = Vec::new();
            let mut index: usize = 0;
            while index < types.len()
                invariant
                    substitution.parameters@.len() == substitution.arguments@.len(),
                    parameters == substitution.parameter_views(),
                    arguments == substitution.argument_views(),
                    generic == name_set(generic_names@),
                    index <= types@.len(),
                    specialized@.len() == index,
                    forall|j: int| 0 <= j < index ==> type_view(#[trigger] specialized@[j]) == specialize_type_spec(
                        substitute(parameters, arguments, type_view(types@[j])),
                        generic,
                    ),
                decreases types@.len() - index,
            {
                specialized.push(specialize_type(&substitution.apply(&types[index]), generic_names));
                index = index + 1;
            }
            assert(type_views(specialized@) =~= type_views(types@).map_values(
                |ty: TypeView| specialize_type_spec(substitute(parameters, arguments, ty), generic),
            ));
            EnumPayload::Tuple(specialized)
        },
        EnumPayload::Struct(fields) => {
            let mut specialized: Vec<EnumField> = Vec::new();
            let mut index: usize = 0;
            while index < fields.len()
                invariant
                    substitution.parameters@.len() == substitution.arguments@.len(),
                    parameters == substitution.parameter_views(),
                    arguments == substitution.argument_views(),
                    generic == name_set(generic_names@),
                    index <= fields@.len(),
                    specialized@.len() == index,
                    forall|j: int| 0 <= j < index ==> enum_field_view(#[trigger] specialized@[j]) == (EnumFieldView {
                        name: fields@[j].name@,
                        ty: specialize_type_spec(substitute(parameters, arguments, type_view(fields@[j].ty)), generic),
                        span: fields@[j].span,
                    }),
                decreases fields@.len() - index,
            {
                let field = &fields[index];
                specialized.push(
                    EnumField {
                        name: field.name.clone(),
                        ty: specialize_type(&substitution.apply(&field.ty), generic_names),
                        span: field.span,
                    },
                );
                index = index + 1;
            }
            assert(specialized@.map_values(|field: EnumField| enum_field_view(field)) =~= fields@.map_values(
                |field: EnumField| enum_field_view(field),
            ).map_values(
                |field: EnumFieldView|
                    EnumFieldView {
                        name: field.name,
                        ty: specialize_type_spec(substitute(parameters, arguments, field.ty), generic),
                        span: field.span,
                    },
            ));
            EnumPayload::Struct(specialized)
        },
    };
    Ok(EnumVariant { name: variant.name.clone(), payload, span: variant.span })
}

} // verus!

verus! {

/// The names that specialization treats as generic when it specializes structs: those of
/// generic structs and of generic enums.
pub open spec fn struct_generic_names(program: Program) -> Set<Seq<char>> {
    Set::new(
        |name: Seq<char>|
            is_generic_struct(declared_structs(program.declarations@), name) || is_generic_enum(
                builtin_enum_views() + declared_enums(program.declarations@),
                name,
            ),
    )
}

/// The names that specialization treats as generic when it specializes enums.
pub open spec fn enum_generic_names(program: Program) -> Set<Seq<char>> {
    Set::new(|name: Seq<char>| is_generic_enum(builtin_enum_views() + declared_enums(program.declarations@), name))
}

/// The concrete structs that the first `count` instances of generic structs stand for: each
/// named by its instance's canonical key, without parameters, with substituted and
/// specialized field types.
pub open spec fn specialized_structs_spec(
    structs: Seq<StructDefView>,
    generic: Set<Seq<char>>,
    instances: Seq<GenericInstance>,
    count: nat,
) -> Result<Seq<StructDefView>, Seq<char>>
    decreases count,
{
    if count == 0 || count > instances.len() {
        Ok(Seq::empty())
    } else {
        match specialized_structs_spec(structs, generic, instances, (count - 1) as nat) {
            Err(error) => Err(error),
            Ok(done) => {
                let instance = instances[count - 1];
                let s = find_struct(structs, instance.name@);
                if s < 0 || s >= structs.len() || structs[s].parameters.len() == 0 {
                    Ok(done)
                } else {
                    let definition = structs[s];
                    let arguments = type_views(instance.arguments@);
                    if definition.parameters.len() != arguments.len() {
                        Err(substitution_message(definition.name, definition.parameters.len(), arguments.len()))
                    } else {
                        Ok(
                            done.push(
                                StructDefView {
                                    name: instance.canonical_key@,
                                    parameters: Seq::empty(),
                                    fields: definition.fields.map_values(
                                        |field: StructFieldView|
                                            specialize_field_spec(field, definition.parameters, arguments, generic),
                                    ),
                                    span: definition.span,
                                },
                            ),
                        )
                    }
                }
            },
        }
    }
}

/// The concrete enums that the first `count` instances of generic enums stand for.
pub open spec fn specialized_enums_spec(
    enums: Seq<EnumDefView>,
    generic: Set<Seq<char>>,
    instances: Seq<GenericInstance>,
    count: nat,
) -> Result<Seq<EnumDefView>, Seq<char>>
    decreases count,
{
    if count == 0 || count > instances.len() {
        Ok(Seq::empty())
    } else {
        match specialized_enums_spec(enums, generic, instances, (count - 1) as nat) {
            Err(error) => Err(error),
            Ok(done) => {
                let instance = instances[count - 1];
                let e = find_enum(enums, instance.name@);
                if e < 0 || e >= enums.len() || enums[e].parameters.len() == 0 {
                    Ok(done)
                } else {
                    let definition = enums[e];
                    let arguments = type_views(instance.arguments@);
                    if definition.parameters.len() != arguments.len() {
                        Err(substitution_message(definition.name, definition.parameters.len(), arguments.len()))
                    } else {
                        Ok(
                            done.push(
                                EnumDefView {
                                    name: instance.canonical_key@,
                                    parameters: Seq::empty(),
                                    variants: definition.variants.map_values(
                                        |variant: EnumVariantView|
                                            specialize_variant_spec(variant, definition.parameters, arguments, generic),
                                    ),
                                    span: definition.span,
                                },
                            ),
                        )
                    }
                }
            },
        }
    }
}

proof fn lemma_text_views_append(a: Seq<String>, b: Seq<String>)
    ensures
        name_set(a + b) == name_set(a).union(name_set(b)),
{
    assert(text_views(a + b) =~= text_views(a) + text_views(b));
    assert forall|name: Seq<char>| name_set(a + b).contains(name) <==> name_set(a).union(name_set(b)).contains(name) by {
        if text_views(a + b).contains(name) {
            let j = choose|j: int| 0 <= j < text_views(a + b).len() && text_views(a + b)[j] == name;
            if j < a.len() {
                assert(text_views(a)[j] == name);
            } else {
                assert(text_views(b)[j - a.len()] == name);
            }
        }
        if text_views(a).contains(name) {
            let j = choose|j: int| 0 <= j < text_views(a).len() && text_views(a)[j] == name;
            assert(text_views(a + b)[j] == name);
        }
        if text_views(b).contains(name) {
            let j = choose|j: int| 0 <= j < text_views(b).len() && text_views(b)[j] == name;
            assert(text_views(a + b)[j + a.len()] == name);
        }
    }
    assert(name_set(a + b) =~= name_set(a).union(name_set(b)));
}

/// Concrete struct definitions for the instances of generic structs, in instance order.
pub fn specialized_structs(
    program: &Program,
    instances: &[GenericInstance],
) -> (result: Result<Vec<StructDef>, NativeEmitError>)
    ensures
        match result {
            Ok(structs) => specialized_structs_spec(
                declared_structs(program.declarations@),
                struct_generic_names(*program),
                instances@,
                instances@.len() as nat,
            ) == Ok::<Seq<StructDefView>, Seq<char>>(struct_def_views(structs@)),
            Err(error) => specialized_structs_spec(
                declared_structs(program.declarations@),
                struct_generic_names(*program),
                instances@,
                instances@.len() as nat,
            ) == Err::<Seq<StructDefView>, Seq<char>>(error.spec_message()),
        },
{
    let definitions = struct_definitions(program);
    let enums = enum_definitions(program);
    let mut generic_names = generic_struct_names(&definitions);
    let mut enum_names = generic_enum_names(&enums);
    let ghost struct_names = generic_names@;
    let ghost enum_name_list = enum_names@;
    generic_names.append(&mut enum_names);
    proof {
        lemma_text_views_append(struct_names, enum_name_list);
        assert(name_set(generic_names@) =~= struct_generic_names(*program));
    }
    let ghost views = struct_def_views(definitions@);
    let ghost generic = name_set(generic_names@);
    let mut specialized: Vec<StructDef> = Vec::new();
    let mut index: usize = 0;
    assert(struct_def_views(specialized@) =~= Seq::<StructDefView>::empty());
    while index < instances.len()
        invariant
            index <= instances@.len(),
            views == struct_def_views(definitions@),
            views == declared_structs(program.declarations@),
            generic == name_set(generic_names@),
            generic == struct_generic_names(*program),
            specialized_structs_spec(views, generic, instances@, index as nat) == Ok::<Seq<StructDefView>, Seq<char>>(
                struct_def_views(specialized@),
            ),
        decreases instances@.len() - index,
    {
        let instance = &instances[index];
        let ghost before = struct_def_views(specialized@);
        match find_struct_index(&definitions, &instance.name) {
            None => {},
            Some(position) => {
                let definition = &definitions[position];
                proof {
                    assert(views[position as int] == struct_def_view(*definition));
                }
                if definition.generic_parameters.len() > 0 {
                    let substitution = match substitution_for_instance(
                        instance,
                        definition.name.as_str(),
                        &definition.generic_parameters,
                        definition.span,
                    ) {
                        Ok(substitution) => substitution,
                        Err(error) => {
                            proof {
                                lemma_specialized_structs_error_stable(views, generic, instances@, (index + 1) as nat, instances@.len() as nat);
                            }
                            return Err(error);
                        },
                    };
                    let mut fields: Vec<StructField> = Vec::new();
                    let mut field_index: usize = 0;
                    while field_index < definition.fields.len()
                        invariant
                            substitution.parameters@.len() == substitution.arguments@.len(),
                            field_index <= definition.fields@.len(),
                            fields@.len() == field_index,
                            forall|j: int| 0 <= j < field_index ==> struct_field_view(#[trigger] fields@[j]) == specialize_field_spec(
                                struct_field_view(definition.fields@[j]),
                                substitution.parameter_views(),
                                substitution.argument_views(),
                                name_set(generic_names@),
                            ),
                        decreases definition.fields@.len() - field_index,
                    {
                        let field = match specialize_field(&definition.fields[field_index], &substitution, &generic_names) {
                            Ok(field) => field,
                            Err(error) => {
                                return Err(error);
                            },
                        };
                        fields.push(field);
                        field_index = field_index + 1;
                    }
                    let result = StructDef {
                        name: instance.canonical_key.clone(),
                        generic_parameters: Vec::new(),
                        fields,
                        span: definition.span,
                    };
                    proof {
                        assert(struct_def_view(result).parameters =~= Seq::<Seq<char>>::empty());
                        assert(struct_def_view(result).fields =~= struct_def_view(*definition).fields.map_values(
                            |field: StructFieldView|
                                specialize_field_spec(
                                    field,
                                    struct_def_view(*definition).parameters,
                                    type_views(instance.arguments@),
                                    generic,
                                ),
                        ));
                    }
                    specialized.push(result);
                    proof {
                        assert(struct_def_views(specialized@) =~= before.push(struct_def_view(result)));
                    }
                }
            },
        }
        index = index + 1;
    }
    Ok(specialized)
}

/// Concrete enum definitions for the instances of generic enums, in instance order.
pub fn specialized_enums(
    program: &Program,
    instances: &[GenericInstance],
) -> (result: Result<Vec<EnumDef>, NativeEmitError>)
    ensures
        match result {
            Ok(enums) => specialized_enums_spec(
                builtin_enum_views() + declared_enums(program.declarations@),
                enum_generic_names(*program),
                instances@,
                instances@.len() as nat,
            ) == Ok::<Seq<EnumDefView>, Seq<char>>(enum_def_views(enums@)),
            Err(error) => specialized_enums_spec(
                builtin_enum_views() + declared_enums(program.declarations@),
                enum_generic_names(*program),
                instances@,
                instances@.len() as nat,
            ) == Err::<Seq<EnumDefView>, Seq<char>>(error.spec_message()),
        },
{
    let definitions = enum_definitions(program);
    let generic_names = generic_enum_names(&definitions);
    proof {
        assert(name_set(generic_names@) =~= enum_generic_names(*program));
    }
    let ghost views = enum_def_views(definitions@);
    let ghost generic = name_set(generic_names@);
    let mut specialized: Vec<EnumDef> = Vec::new();
    let mut index: usize = 0;
    assert(enum_def_views(specialized@) =~= Seq::<EnumDefView>::empty());
    while index < instances.len()
        invariant
            index <= instances@.len(),
            views == enum_def_views(definitions@),
            views == builtin_enum_views() + declared_enums(program.declarations@),
            generic == name_set(generic_names@),
            generic == enum_generic_names(*program),
            specialized_enums_spec(views, generic, instances@, index as nat) == Ok::<Seq<EnumDefView>, Seq<char>>(
                enum_def_views(specialized@),
            ),
        decreases instances@.len() - index,
    {
        let instance = &instances[index];
        let ghost before = enum_def_views(specialized@);
        match find_enum_index(&definitions, &instance.name) {
            None => {},
            Some(position) => {
                let definition = &definitions[position];
                proof {
                    assert(views[position as int] == enum_def_view(*definition));
                }
                if definition.generic_parameters.len() > 0 {
                    let substitution = match substitution_for_instance(
                        instance,
                        definition.name.as_str(),
                        &definition.generic_parameters,
                        definition.span,
                    ) {
                        Ok(substitution) => substitution,
                        Err(error) => {
                            proof {
                                lemma_specialized_enums_error_stable(views, generic, instances@, (index + 1) as nat, instances@.len() as nat);
                            }
                            return Err(error);
                        },
                    };
                    let mut variants: Vec<EnumVariant> = Vec::new();
                    let mut variant_index: usize = 0;
                    while variant_index < definition.variants.len()
                        invariant
                            substitution.parameters@.len() == substitution.arguments@.len(),
                            variant_index <= definition.variants@.len(),
                            variants@.len() == variant_index,
                            forall|j: int| 0 <= j < variant_index ==> enum_variant_view(#[trigger] variants@[j]) == specialize_variant_spec(
                                enum_variant_view(definition.variants@[j]),
                                substitution.parameter_views(),
                                substitution.argument_views(),
                                name_set(generic_names@),
                            ),
                        decreases definition.variants@.len() - variant_index,
                    {
                        let variant = match specialize_variant(&definition.variants[variant_index], &substitution, &generic_names) {
                            Ok(variant) => variant,
                            Err(error) => {
                                return Err(error);
                            },
                        };
                        variants.push(variant);
                        variant_index = variant_index + 1;
                    }
                    let result = EnumDef {
                        name: instance.canonical_key.clone(),
                        generic_parameters: Vec::new(),
                        variants,
                        span: definition.span,
                    };
                    proof {
                        assert(enum_def_view(result).parameters =~= Seq::<Seq<char>>::empty());
                        assert(enum_def_view(result).variants =~= enum_def_view(*definition).variants.map_values(
                            |variant: EnumVariantView|
                                specialize_variant_spec(
                                    variant,
                                    enum_def_view(*definition).parameters,
                                    type_views(instance.arguments@),
                                    generic,
                                ),
                        ));
                    }
                    specialized.push(result);
                    proof {
                        assert(enum_def_views(specialized@) =~= before.push(enum_def_view(result)));
                    }
                }
            },
        }
        index = index + 1;
    }
    Ok(specialized)
}

proof fn lemma_specialized_structs_error_stable(
    structs: Seq<StructDefView>,
    generic: Set<Seq<char>>,
    instances: Seq<GenericInstance>,
    count: nat,
    end: nat,
)
    requires
        count <= end <= instances.len(),
        specialized_structs_spec(structs, generic, instances, count) is Err,
    ensures
        specialized_structs_spec(structs, generic, instances, end) == specialized_structs_spec(structs, generic, instances, count),
    decreases end - count,
{
    if end > count {
        lemma_specialized_structs_error_stable(structs, generic, instances, count, (end - 1) as nat);
    }
}

proof fn lemma_specialized_enums_error_stable(
    enums: Seq<EnumDefView>,
    generic: Set<Seq<char>>,
    instances: Seq<GenericInstance>,
    count: nat,
    end: nat,
)
    requires
        count <= end <= instances.len(),
        specialized_enums_spec(enums, generic, instances, count) is Err,
    ensures
        specialized_enums_spec(enums, generic, instances, end) == specialized_enums_spec(enums, generic, instances, count),
    decreases end - count,
{
    if end > count {
        lemma_specialized_enums_error_stable(enums, generic, instances, count, (end - 1) as nat);
    }
}

} // verus!

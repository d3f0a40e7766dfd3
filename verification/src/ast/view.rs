use vstd::prelude::*;

use super::decl::{
    EnumDef, EnumField, EnumPayload, EnumVariant, GenericParam, StructDef, StructField,
    StructFieldRole, TypeName,
};
use crate::span::SourceSpan;

verus! {

/// The mathematical content of a `TypeName`: its name, its arguments and its span.
pub struct TypeView {
    pub name: Seq<char>,
    pub arguments: Seq<TypeView>,
    pub span: SourceSpan,
}

/// The view of a type as written in source.
pub open spec fn type_view(ty: TypeName) -> TypeView
    decreases ty,
{
    TypeView {
        name: ty.name@,
        arguments: Seq::new(
            ty.arguments@.len(),
            |i: int|
                if 0 <= i < ty.arguments@.len() {
                    type_view(ty.arguments@[i])
                } else {
                    TypeView { name: Seq::empty(), arguments: Seq::empty(), span: ty.span }
                },
        ),
        span: ty.span,
    }
}

/// The views of a sequence of types.
pub open spec fn type_views(types: Seq<TypeName>) -> Seq<TypeView> {
    types.map_values(|ty: TypeName| type_view(ty))
}

/// A copy of `ty` with the same view.
pub fn copy_type_name(ty: &TypeName) -> (copy: TypeName)
    ensures
        type_view(copy) == type_view(*ty),
    decreases ty,
{
    let arguments = copy_type_names(&ty.arguments);
    let copy = TypeName { name: ty.name.clone(), arguments, span: ty.span };
    assert(copy.arguments@.len() == type_views(copy.arguments@).len());
    assert forall|i: int| 0 <= i < ty.arguments@.len() implies type_view(copy.arguments@[i])
        == type_view(ty.arguments@[i]) by {
        assert(type_views(copy.arguments@)[i] == type_views(ty.arguments@)[i]);
    }
    assert(type_view(copy).arguments =~= type_view(*ty).arguments);
    copy
}

/// Copies of each type in `types`, in order.
pub fn copy_type_names(types: &Vec<TypeName>) -> (copies: Vec<TypeName>)
    ensures
        type_views(copies@) == type_views(types@),
    decreases types,
{
    let mut copies: Vec<TypeName> = Vec::new();
    let mut index: usize = 0;
    while index < types.len()
        invariant
            index <= types@.len(),
            copies@.len() == index,
            forall|j: int| 0 <= j < index ==> type_view(#[trigger] copies@[j]) == type_view(types@[j]),
        decreases types@.len() - index,
    {
        let copy = copy_type_name(&types[index]);
        copies.push(copy);
        index = index + 1;
    }
    assert(type_views(copies@) =~= type_views(types@));
    copies
}

} // verus!

verus! {

/// The contents of a struct field that code generation reads.
pub struct StructFieldView {
    pub role: StructFieldRole,
    pub name: Seq<char>,
    pub ty: TypeView,
    pub span: SourceSpan,
}

/// The contents of a struct definition that code generation reads.
pub struct StructDefView {
    pub name: Seq<char>,
    pub parameters: Seq<Seq<char>>,
    pub fields: Seq<StructFieldView>,
    pub span: SourceSpan,
}

pub struct EnumFieldView {
    pub name: Seq<char>,
    pub ty: TypeView,
    pub span: SourceSpan,
}

pub enum PayloadView {
    Unit,
    Tuple(Seq<TypeView>),
    Struct(Seq<EnumFieldView>),
}

pub struct EnumVariantView {
    pub name: Seq<char>,
    pub payload: PayloadView,
    pub span: SourceSpan,
}

/// The contents of an enum definition that code generation reads.
pub struct EnumDefView {
    pub name: Seq<char>,
    pub parameters: Seq<Seq<char>>,
    pub variants: Seq<EnumVariantView>,
    pub span: SourceSpan,
}

pub open spec fn parameter_views(parameters: Seq<GenericParam>) -> Seq<Seq<char>> {
    parameters.map_values(|parameter: GenericParam| parameter.name@)
}

pub open spec fn struct_field_view(field: StructField) -> StructFieldView {
    StructFieldView { role: field.role, name: field.name@, ty: type_view(field.ty), span: field.span }
}

pub open spec fn struct_def_view(definition: StructDef) -> StructDefView {
    StructDefView {
        name: definition.name@,
        parameters: parameter_views(definition.generic_parameters@),
        fields: definition.fields@.map_values(|field: StructField| struct_field_view(field)),
        span: definition.span,
    }
}

pub open spec fn enum_field_view(field: EnumField) -> EnumFieldView {
    EnumFieldView { name: field.name@, ty: type_view(field.ty), span: field.span }
}

pub open spec fn payload_view(payload: EnumPayload) -> PayloadView {
    match payload {
        EnumPayload::Unit => PayloadView::Unit,
        EnumPayload::Tuple(types) => PayloadView::Tuple(type_views(types@)),
        EnumPayload::Struct(fields) => PayloadView::Struct(
            fields@.map_values(|field: EnumField| enum_field_view(field)),
        ),
    }
}

pub open spec fn enum_variant_view(variant: EnumVariant) -> EnumVariantView {
    EnumVariantView { name: variant.name@, payload: payload_view(variant.payload), span: variant.span }
}

pub open spec fn enum_def_view(definition: EnumDef) -> EnumDefView {
    EnumDefView {
        name: definition.name@,
        parameters: parameter_views(definition.generic_parameters@),
        variants: definition.variants@.map_values(|variant: EnumVariant| enum_variant_view(variant)),
        span: definition.span,
    }
}

pub open spec fn struct_def_views(definitions: Seq<StructDef>) -> Seq<StructDefView> {
    definitions.map_values(|definition: StructDef| struct_def_view(definition))
}

pub open spec fn enum_def_views(definitions: Seq<EnumDef>) -> Seq<EnumDefView> {
    definitions.map_values(|definition: EnumDef| enum_def_view(definition))
}

fn copy_option_type(ty: &Option<TypeName>) -> (copy: Option<TypeName>)
    ensures
        copy is Some == ty is Some,
        copy is Some ==> type_view(copy->0) == type_view(ty->0),
{
    match ty {
        Some(ty) => Some(copy_type_name(ty)),
        None => None,
    }
}

/// A copy of a generic parameter list.
pub fn copy_generic_params(parameters: &Vec<GenericParam>) -> (copies: Vec<GenericParam>)
    ensures
        parameter_views(copies@) == parameter_views(parameters@),
{
    let mut copies: Vec<GenericParam> = Vec::new();
    let mut index: usize = 0;
    while index < parameters.len()
        invariant
            index <= parameters@.len(),
            copies@.len() == index,
            forall|j: int| 0 <= j < index ==> (#[trigger] copies@[j]).name@ == parameters@[j].name@,
        decreases parameters@.len() - index,
    {
        let parameter = &parameters[index];
        copies.push(
            GenericParam {
                name: parameter.name.clone(),
                bound: copy_option_type(&parameter.bound),
                bounds: copy_type_names(&parameter.bounds),
                span: parameter.span,
            },
        );
        index = index + 1;
    }
    assert(parameter_views(copies@) =~= parameter_views(parameters@));
    copies
}

/// A copy of a struct definition.
pub fn copy_struct_def(definition: &StructDef) -> (copy: StructDef)
    ensures
        struct_def_view(copy) == struct_def_view(*definition),
{
    let mut fields: Vec<StructField> = Vec::new();
    let mut index: usize = 0;
    while index < definition.fields.len()
        invariant
            index <= definition.fields@.len(),
            fields@.len() == index,
            forall|j: int| 0 <= j < index ==> struct_field_view(#[trigger] fields@[j]) == struct_field_view(
                definition.fields@[j],
            ),
        decreases definition.fields@.len() - index,
    {
        let field = &definition.fields[index];
        fields.push(
            StructField {
                role: field.role,
                name: field.name.clone(),
                ty: copy_type_name(&field.ty),
                span: field.span,
            },
        );
        index = index + 1;
    }
    let copy = StructDef {
        name: definition.name.clone(),
        generic_parameters: copy_generic_params(&definition.generic_parameters),
        fields,
        span: definition.span,
    };
    assert(struct_def_view(copy).fields =~= struct_def_view(*definition).fields);
    copy
}

fn copy_payload(payload: &EnumPayload) -> (copy: EnumPayload)
    ensures
        payload_view(copy) == payload_view(*payload),
{
    match payload {
        EnumPayload::Unit => EnumPayload::Unit,
        EnumPayload::Tuple(types) => EnumPayload::Tuple(copy_type_names(types)),
        EnumPayload::Struct(fields) => {
            let mut copies: Vec<EnumField> = Vec::new();
            let mut index: usize = 0;
            while index < fields.len()
                invariant
                    index <= fields@.len(),
                    copies@.len() == index,
                    forall|j: int| 0 <= j < index ==> enum_field_view(#[trigger] copies@[j]) == enum_field_view(
                        fields@[j],
                    ),
                decreases fields@.len() - index,
            {
                let field = &fields[index];
                copies.push(
                    EnumField { name: field.name.clone(), ty: copy_type_name(&field.ty), span: field.span },
                );
                index = index + 1;
            }
            let copy = EnumPayload::Struct(copies);
            assert(copies@.map_values(|field: EnumField| enum_field_view(field)) =~= fields@.map_values(
                |field: EnumField| enum_field_view(field),
            ));
            copy
        },
    }
}

/// A copy of an enum definition.
pub fn copy_enum_def(definition: &EnumDef) -> (copy: EnumDef)
    ensures
        enum_def_view(copy) == enum_def_view(*definition),
{
    let mut variants: Vec<EnumVariant> = Vec::new();
    let mut index: usize = 0;
    while index < definition.variants.len()
        invariant
            index <= definition.variants@.len(),
            variants@.len() == index,
            forall|j: int| 0 <= j < index ==> enum_variant_view(#[trigger] variants@[j]) == enum_variant_view(
                definition.variants@[j],
            ),
        decreases definition.variants@.len() - index,
    {
        let variant = &definition.variants[index];
        variants.push(
            EnumVariant {
                name: variant.name.clone(),
                payload: copy_payload(&variant.payload),
                span: variant.span,
            },
        );
        index = index + 1;
    }
    let copy = EnumDef {
        name: definition.name.clone(),
        generic_parameters: copy_generic_params(&definition.generic_parameters),
        variants,
        span: definition.span,
    };
    assert(enum_def_view(copy).variants =~= enum_def_view(*definition).variants);
    copy
}

} // verus!

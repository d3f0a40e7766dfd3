use vstd::prelude::*;

use super::abi::ForeignAbi;
use super::stmt::Block;
use crate::span::SourceSpan;

verus! {

#[derive(Debug)]
pub struct Program {
    pub declarations: Vec<TopLevelDecl>,
}

#[derive(Debug)]
pub enum TopLevelDecl {
    Verb(VerbDecl),
    ExternalVerb(ExternalVerbDecl),
    Struct(StructDef),
    Enum(EnumDef),
    Role(RoleDecl),
    Perform(PerformDecl),
}

#[derive(Debug)]
pub struct RoleDecl {
    pub name: String,
    pub methods: Vec<RoleMethod>,
    pub span: SourceSpan,
}

#[derive(Debug)]
pub struct RoleMethod {
    pub name: String,
    pub params: Vec<Param>,
    pub return_type: Option<TypeName>,
    pub span: SourceSpan,
}

#[derive(Debug)]
pub struct PerformDecl {
    pub role_name: String,
    pub target: TypeName,
    pub methods: Vec<VerbDecl>,
    pub span: SourceSpan,
}

#[derive(Debug)]
pub struct EnumDef {
    pub name: String,
    pub generic_parameters: Vec<GenericParam>,
    pub variants: Vec<EnumVariant>,
    pub span: SourceSpan,
}

#[derive(Debug)]
pub struct EnumVariant {
    pub name: String,
    pub payload: EnumPayload,
    pub span: SourceSpan,
}

#[derive(Debug)]
pub enum EnumPayload {
    Unit,
    Tuple(Vec<TypeName>),
    Struct(Vec<EnumField>),
}

#[derive(Debug)]
pub struct EnumField {
    pub name: String,
    pub ty: TypeName,
    pub span: SourceSpan,
}

#[derive(Debug)]
pub struct StructDef {
    pub name: String,
    pub generic_parameters: Vec<GenericParam>,
    pub fields: Vec<StructField>,
    pub span: SourceSpan,
}

#[derive(Debug)]
pub struct StructField {
    pub role: StructFieldRole,
    pub name: String,
    pub ty: TypeName,
    pub span: SourceSpan,
}

#[derive(Clone, Copy, Debug, PartialEq, Eq, Structural)]
pub enum StructFieldRole {
    Value,
    Erg,
}

#[derive(Debug)]
pub struct ExternalVerbDecl {
    pub unsafe_boundary: bool,
    pub abi: ForeignAbi,
    pub name: String,
    pub generic_parameters: Vec<GenericParam>,
    pub params: Vec<Param>,
    pub return_type: Option<TypeName>,
    pub span: SourceSpan,
}

#[derive(Debug)]
pub struct VerbDecl {
    pub name: String,
    pub generic_parameters: Vec<GenericParam>,
    pub params: Vec<Param>,
    pub return_type: Option<TypeName>,
    pub body: Block,
    pub span: SourceSpan,
}

#[derive(Debug)]
pub struct Param {
    pub role: Role,
    pub name: String,
    pub ty: TypeName,
    pub span: SourceSpan,
}

#[derive(Clone, Copy, Debug, PartialEq, Eq, Structural)]
pub enum Role {
    Erg,
    Abs,
    Dat,
}

/// A type as written in source: a name applied to zero or more type arguments.
#[derive(Debug)]
pub struct TypeName {
    pub name: String,
    pub arguments: Vec<TypeName>,
    pub span: SourceSpan,
}

#[derive(Debug)]
pub struct GenericParam {
    pub name: String,
    pub bound: Option<TypeName>,
    pub bounds: Vec<TypeName>,
    pub span: SourceSpan,
}

/// The span given to declarations that the compiler supplies itself.
pub open spec fn is_zero_span(span: SourceSpan) -> bool {
    span.start == 0 && span.end == 0
}

/// `name` as an unbounded generic parameter at the zero span.
pub open spec fn is_plain_parameter(parameter: GenericParam, name: Seq<char>) -> bool {
    &&& parameter.name@ == name
    &&& parameter.bound is None
    &&& parameter.bounds@.len() == 0
    &&& is_zero_span(parameter.span)
}

/// `name` as a type without arguments at the zero span.
pub open spec fn is_plain_type(ty: TypeName, name: Seq<char>) -> bool {
    &&& ty.name@ == name
    &&& ty.arguments@.len() == 0
    &&& is_zero_span(ty.span)
}

/// A variant named `name` whose payload is the single plain type `ty`.
pub open spec fn is_single_tuple_variant(variant: EnumVariant, name: Seq<char>, ty: Seq<char>) -> bool {
    &&& variant.name@ == name
    &&& is_zero_span(variant.span)
    &&& match variant.payload {
        EnumPayload::Tuple(types) => types@.len() == 1 && is_plain_type(types@[0], ty),
        _ => false,
    }
}

/// `Option[T]` with `Some(T)` and `None`, and `Result[T, E]` with `Ok(T)` and `Err(E)`.
pub open spec fn is_builtin_enum_list(definitions: Seq<EnumDef>) -> bool {
    &&& definitions.len() == 2
    &&& definitions[0].name@ == "Option"@
    &&& is_zero_span(definitions[0].span)
    &&& definitions[0].generic_parameters@.len() == 1
    &&& is_plain_parameter(definitions[0].generic_parameters@[0], "T"@)
    &&& definitions[0].variants@.len() == 2
    &&& is_single_tuple_variant(definitions[0].variants@[0], "Some"@, "T"@)
    &&& definitions[0].variants@[1].name@ == "None"@
    &&& definitions[0].variants@[1].payload is Unit
    &&& is_zero_span(definitions[0].variants@[1].span)
    &&& definitions[1].name@ == "Result"@
    &&& is_zero_span(definitions[1].span)
    &&& definitions[1].generic_parameters@.len() == 2
    &&& is_plain_parameter(definitions[1].generic_parameters@[0], "T"@)
    &&& is_plain_parameter(definitions[1].generic_parameters@[1], "E"@)
    &&& definitions[1].variants@.len() == 2
    &&& is_single_tuple_variant(definitions[1].variants@[0], "Ok"@, "T"@)
    &&& is_single_tuple_variant(definitions[1].variants@[1], "Err"@, "E"@)
}

/// The enums that every program may use without declaring them.
pub fn builtin_enum_definitions() -> (definitions: Vec<EnumDef>)
    ensures
        is_builtin_enum_list(definitions@),
{
    let option = EnumDef {
        name: "Option".to_owned(),
        generic_parameters: vec![generic_parameter("T")],
        variants: vec![
            EnumVariant {
                name: "Some".to_owned(),
                payload: EnumPayload::Tuple(vec![plain_type_name("T")]),
                span: zero_span(),
            },
            EnumVariant { name: "None".to_owned(), payload: EnumPayload::Unit, span: zero_span() },
        ],
        span: zero_span(),
    };
    let result = EnumDef {
        name: "Result".to_owned(),
        generic_parameters: vec![generic_parameter("T"), generic_parameter("E")],
        variants: vec![
            EnumVariant {
                name: "Ok".to_owned(),
                payload: EnumPayload::Tuple(vec![plain_type_name("T")]),
                span: zero_span(),
            },
            EnumVariant {
                name: "Err".to_owned(),
                payload: EnumPayload::Tuple(vec![plain_type_name("E")]),
                span: zero_span(),
            },
        ],
        span: zero_span(),
    };
    vec![option, result]
}

fn generic_parameter(name: &str) -> (parameter: GenericParam)
    ensures
        is_plain_parameter(parameter, name@),
{
    GenericParam { name: name.to_owned(), bound: None, bounds: Vec::new(), span: zero_span() }
}

fn plain_type_name(name: &str) -> (ty: TypeName)
    ensures
        is_plain_type(ty, name@),
{
    TypeName { name: name.to_owned(), arguments: Vec::new(), span: zero_span() }
}

fn zero_span() -> (span: SourceSpan)
    ensures
        is_zero_span(span),
{
    SourceSpan::new(0, 0)
}

} // verus!

use vstd::prelude::*;

use crate::span::SourceSpan;

verus! {

#[derive(Debug)]
pub enum Pattern {
    Variant { enum_name: String, variant: String, payload: VariantPayload, span: SourceSpan },
    Literal { value: LiteralPattern, span: SourceSpan },
    Wildcard { span: SourceSpan },
}

#[derive(Debug)]
pub enum VariantPayload {
    Unit,
    Positional(Vec<PatternBinding>),
    Named(Vec<NamedPattern>),
}

#[derive(Debug)]
pub struct PatternBinding {
    pub name: String,
    pub span: SourceSpan,
}

#[derive(Debug)]
pub struct NamedPattern {
    pub name: String,
    pub binding: PatternBinding,
    pub span: SourceSpan,
}

#[derive(Debug)]
pub enum LiteralPattern {
    Integer(String),
    Bool(bool),
}

} // verus!

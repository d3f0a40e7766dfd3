use vstd::prelude::*;

use super::decl::Role;
use super::expr::Expr;
use crate::span::SourceSpan;

verus! {

#[derive(Debug)]
pub struct Block {
    pub statements: Vec<Stmt>,
    pub span: SourceSpan,
}

#[derive(Debug)]
pub enum Stmt {
    OwnerDecl { role: Role, name: String, ty: Option<String>, initializer: Expr, span: SourceSpan },
    Assignment { name: String, value: Expr, span: SourceSpan },
    Expression { expression: Expr, span: SourceSpan },
    Return { value: Option<Expr>, span: SourceSpan },
    Loop(Block),
    Break { span: SourceSpan },
    Continue { span: SourceSpan },
    Drop { name: String, span: SourceSpan },
    Block(Block),
}

} // verus!

//! Function values: a declaration together with the scope it was declared in.
use vstd::prelude::*;
use crate::ast_tools::{stmts_view, Stmt, StmtView};
use crate::token::{tokens_view, Token, TokenView};

verus! {

/// A user-defined function: its name, parameters and body, borrowed from the
/// program, and the scope that was current where it was declared.
#[derive(Debug, Clone, Copy)]
pub struct Function<'a> {
    pub name: &'a Token,
    pub params: &'a Vec<Token>,
    pub body: &'a Vec<Stmt>,
    pub closure: usize,
}

/// The mathematical value of a [`Function`].
pub struct FunctionView {
    pub name: TokenView,
    pub params: Seq<TokenView>,
    pub body: Seq<StmtView>,
    pub closure: nat,
}

impl<'a> View for Function<'a> {
    type V = FunctionView;

    open spec fn view(&self) -> FunctionView {
        FunctionView {
            name: self.name@,
            params: tokens_view(self.params@),
            body: stmts_view(self.body@),
            closure: self.closure as nat,
        }
    }
}

impl<'a> Function<'a> {
    /// The number of arguments that a call must supply.
    pub fn arity(&self) -> (r: usize)
        ensures
            r == self@.params.len(),
    {
        self.params.len()
    }
}

} // verus!

//! Visiting statements: one method for each kind of node.
use vstd::prelude::*;
use crate::ast_tools::{optional_expr_view, stmts_view, Expr, Stmt, StmtView};
use crate::error::LoxError;
use crate::token::{tokens_view, Token};

verus! {

/// The mathematical value of the `else` branch of an `if`.
pub open spec fn else_view(s: Option<Stmt>) -> Option<Box<StmtView>> {
    match s {
        Some(s) => Some(Box::new(s@)),
        None => None,
    }
}

/// Something that does its work on a statement one node at a time.
///
/// An implementation says in `ready` what it needs before a visit and in
/// `visits` what a visit of a node does to it and returns; every method is
/// held to that for the node it is given. The placeholder of a declaration
/// that could not be parsed is no node and is not visited.
pub trait Visitor<'a, T> {
    /// What must hold of the visitor before a visit.
    spec fn ready(&self) -> bool;

    /// What a visit of `node` does: `self` is the visitor before it, `after`
    /// the visitor afterwards.
    spec fn visits(&self, node: StmtView, after: &Self, result: &Result<T, LoxError>) -> bool;

    fn visit_block_stmt(&mut self, statements: &'a Vec<Stmt>) -> (r: Result<T, LoxError>)
        requires
            old(self).ready(),
        ensures
            old(self).visits(
                StmtView::Block { statements: stmts_view(statements@) },
                final(self),
                &r,
            ),
    ;

    fn visit_expression_stmt(&mut self, expression: &'a Expr) -> (r: Result<T, LoxError>)
        requires
            old(self).ready(),
        ensures
            old(self).visits(StmtView::Expression { expression: expression@ }, final(self), &r),
    ;

    fn visit_print_stmt(&mut self, expression: &'a Expr) -> (r: Result<T, LoxError>)
        requires
            old(self).ready(),
        ensures
            old(self).visits(StmtView::Print { expression: expression@ }, final(self), &r),
    ;

    fn visit_var_stmt(&mut self, name: &'a Token, initializer: &'a Option<Expr>) -> (r: Result<
        T,
        LoxError,
    >)
        requires
            old(self).ready(),
        ensures
            old(self).visits(
                StmtView::Var { name: name@, initializer: optional_expr_view(*initializer) },
                final(self),
                &r,
            ),
    ;

    fn visit_if_statement(
        &mut self,
        condition: &'a Expr,
        then_branch: &'a Stmt,
        else_branch: &'a Option<Stmt>,
    ) -> (r: Result<T, LoxError>)
        requires
            old(self).ready(),
        ensures
            old(self).visits(
                StmtView::If {
                    condition: condition@,
                    then_branch: Box::new(then_branch@),
                    else_branch: else_view(*else_branch),
                },
                final(self),
                &r,
            ),
    ;

    fn visit_while_statement(&mut self, condition: &'a Expr, body: &'a Box<Stmt>) -> (r: Result<
        T,
        LoxError,
    >)
        requires
            old(self).ready(),
        ensures
            old(self).visits(
                StmtView::While { condition: condition@, body: Box::new(body@) },
                final(self),
                &r,
            ),
    ;

    fn visit_break_stmt(&mut self) -> (r: Result<T, LoxError>)
        requires
            old(self).ready(),
        ensures
            old(self).visits(StmtView::Break, final(self), &r),
    ;

    fn visit_continue_stmt(&mut self) -> (r: Result<T, LoxError>)
        requires
            old(self).ready(),
        ensures
            old(self).visits(StmtView::Continue, final(self), &r),
    ;

    fn visit_function_stmt(
        &mut self,
        name: &'a Token,
        paramaters: &'a Vec<Token>,
        body: &'a Vec<Stmt>,
    ) -> (r: Result<T, LoxError>)
        requires
            old(self).ready(),
        ensures
            old(self).visits(
                StmtView::Function {
                    name: name@,
                    paramaters: tokens_view(paramaters@),
                    body: stmts_view(body@),
                },
                final(self),
                &r,
            ),
    ;

    fn visit_return_stmt(&mut self, keyword: &'a Token, value: &'a Option<Expr>) -> (r: Result<
        T,
        LoxError,
    >)
        requires
            old(self).ready(),
        ensures
            old(self).visits(
                StmtView::Return { keyword: keyword@, value: optional_expr_view(*value) },
                final(self),
                &r,
            ),
    ;
}

} // verus!

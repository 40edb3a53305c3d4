//! Visiting expressions: one method for each kind of node.
use vstd::prelude::*;
use crate::ast_tools::{exprs_view, Expr, ExprView};
use crate::error::LoxError;
use crate::token::{Literal, Token};

verus! {

/// Something that does its work on an expression one node at a time.
///
/// An implementation says in `ready` what it needs before a visit and in
/// `visits` what a visit of a node does to it and returns; every method is
/// held to that for the node it is given.
pub trait Visitor<'a, T> {
    /// What must hold of the visitor before a visit.
    spec fn ready(&self) -> bool;

    /// What a visit of `node` does: `self` is the visitor before it, `after`
    /// the visitor afterwards.
    spec fn visits(&self, node: ExprView, after: &Self, result: &Result<T, LoxError>) -> bool;

    fn visit_binary_expr(&mut self, left: &'a Expr, operator: &'a Token, right: &'a Expr) -> (r:
        Result<T, LoxError>)
        requires
            old(self).ready(),
        ensures
            old(self).visits(
                ExprView::Binary {
                    left: Box::new(left@),
                    operator: operator@,
                    right: Box::new(right@),
                },
                final(self),
                &r,
            ),
    ;

    fn visit_grouping_expr(&mut self, expression: &'a Expr) -> (r: Result<T, LoxError>)
        requires
            old(self).ready(),
        ensures
            old(self).visits(
                ExprView::Grouping { expression: Box::new(expression@) },
                final(self),
                &r,
            ),
    ;

    fn visit_literal_expr(&mut self, value: &'a Literal) -> (r: Result<T, LoxError>)
        requires
            old(self).ready(),
        ensures
            old(self).visits(ExprView::Literal { value: value@ }, final(self), &r),
    ;

    fn visit_unary_expr(&mut self, operator: &'a Token, right: &'a Expr) -> (r: Result<
        T,
        LoxError,
    >)
        requires
            old(self).ready(),
        ensures
            old(self).visits(
                ExprView::Unary { operator: operator@, right: Box::new(right@) },
                final(self),
                &r,
            ),
    ;

    fn visit_variable_expr(&mut self, name: &'a Token) -> (r: Result<T, LoxError>)
        requires
            old(self).ready(),
        ensures
            old(self).visits(ExprView::Variable { name: name@ }, final(self), &r),
    ;

    fn visit_assignment_expr(&mut self, name: &'a Token, value: &'a Expr) -> (r: Result<
        T,
        LoxError,
    >)
        requires
            old(self).ready(),
        ensures
            old(self).visits(
                ExprView::Assign { name: name@, value: Box::new(value@) },
                final(self),
                &r,
            ),
    ;

    fn visit_logical_expr(&mut self, left: &'a Expr, operator: &'a Token, right: &'a Expr) -> (r:
        Result<T, LoxError>)
        requires
            old(self).ready(),
        ensures
            old(self).visits(
                ExprView::Logical {
                    left: Box::new(left@),
                    operator: operator@,
                    right: Box::new(right@),
                },
                final(self),
                &r,
            ),
    ;

    fn visit_call_expr(&mut self, callee: &'a Expr, paren: &'a Token, arguments: &'a Vec<Expr>) -> (r:
        Result<T, LoxError>)
        requires
            old(self).ready(),
        ensures
            old(self).visits(
                ExprView::Call {
                    callee: Box::new(callee@),
                    paren: paren@,
                    arguments: exprs_view(arguments@),
                },
                final(self),
                &r,
            ),
    ;
}

} // verus!

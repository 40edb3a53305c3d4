//! The syntax tree: expressions and statements, and their mathematical values.
use vstd::prelude::*;
use vstd::string::StringExecFns;
use crate::error::LoxError;
use crate::text::push_text;
use crate::token::{tokens_view, Literal, LiteralView, Token, TokenView};

pub mod expr;
pub mod stmt;

verus! {

/// An expression. Every node owns its children.
#[allow(inconsistent_fields)]
#[derive(Debug)]
pub enum Expr {
    Binary { left: Box<Expr>, operator: Token, right: Box<Expr> },
    Logical { left: Box<Expr>, operator: Token, right: Box<Expr> },
    Grouping { expression: Box<Expr> },
    Literal { value: Literal },
    Unary { operator: Token, right: Box<Expr> },
    Assign { name: Token, value: Box<Expr> },
    Variable { name: Token },
    Call { callee: Box<Expr>, paren: Token, arguments: Vec<Expr> },
}

/// The mathematical value of an [`Expr`].
#[allow(inconsistent_fields)]
pub enum ExprView {
    Binary { left: Box<ExprView>, operator: TokenView, right: Box<ExprView> },
    Logical { left: Box<ExprView>, operator: TokenView, right: Box<ExprView> },
    Grouping { expression: Box<ExprView> },
    Literal { value: LiteralView },
    Unary { operator: TokenView, right: Box<ExprView> },
    Assign { name: TokenView, value: Box<ExprView> },
    Variable { name: TokenView },
    Call { callee: Box<ExprView>, paren: TokenView, arguments: Seq<ExprView> },
}

/// A statement. `NONE` marks a declaration that could not be parsed.
#[allow(inconsistent_fields)]
#[derive(Debug)]
pub enum Stmt {
    Break,
    Continue,
    Block { statements: Vec<Stmt> },
    While { condition: Expr, body: Box<Stmt> },
    Expression { expression: Expr },
    Print { expression: Expr },
    Var { name: Token, initializer: Option<Expr> },
    If { condition: Expr, then_branch: Box<Stmt>, else_branch: Box<Option<Stmt>> },
    Function { name: Token, paramaters: Vec<Token>, body: Vec<Stmt> },
    Return { keyword: Token, value: Option<Expr> },
    NONE,
}

/// The mathematical value of a [`Stmt`].
#[allow(inconsistent_fields)]
pub enum StmtView {
    Break,
    Continue,
    Block { statements: Seq<StmtView> },
    While { condition: ExprView, body: Box<StmtView> },
    Expression { expression: ExprView },
    Print { expression: ExprView },
    Var { name: TokenView, initializer: Option<ExprView> },
    If { condition: ExprView, then_branch: Box<StmtView>, else_branch: Option<Box<StmtView>> },
    Function { name: TokenView, paramaters: Seq<TokenView>, body: Seq<StmtView> },
    Return { keyword: TokenView, value: Option<ExprView> },
    NONE,
}

/// The mathematical value of an expression.
pub open spec fn expr_view(e: Expr) -> ExprView
    decreases e,
{
    match e {
        Expr::Binary { left, operator, right } => ExprView::Binary {
            left: Box::new(expr_view(*left)),
            operator: operator@,
            right: Box::new(expr_view(*right)),
        },
        Expr::Logical { left, operator, right } => ExprView::Logical {
            left: Box::new(expr_view(*left)),
            operator: operator@,
            right: Box::new(expr_view(*right)),
        },
        Expr::Grouping { expression } => ExprView::Grouping {
            expression: Box::new(expr_view(*expression)),
        },
        Expr::Literal { value } => ExprView::Literal { value: value@ },
        Expr::Unary { operator, right } => ExprView::Unary {
            operator: operator@,
            right: Box::new(expr_view(*right)),
        },
        Expr::Assign { name, value } => ExprView::Assign {
            name: name@,
            value: Box::new(expr_view(*value)),
        },
        Expr::Variable { name } => ExprView::Variable { name: name@ },
        Expr::Call { callee, paren, arguments } => ExprView::Call {
            callee: Box::new(expr_view(*callee)),
            paren: paren@,
            arguments: Seq::new(
                arguments@.len(),
                |i: int|
                    if 0 <= i < arguments@.len() {
                        expr_view(arguments@[i])
                    } else {
                        ExprView::Literal { value: LiteralView::Nil }
                    },
            ),
        },
    }
}

impl View for Expr {
    type V = ExprView;

    open spec fn view(&self) -> ExprView {
        expr_view(*self)
    }
}

/// The views of a sequence of expressions, one for one.
pub open spec fn exprs_view(exprs: Seq<Expr>) -> Seq<ExprView> {
    Seq::new(exprs.len(), |i: int| exprs[i]@)
}

/// The mathematical value of an optional expression.
pub open spec fn optional_expr_view(e: Option<Expr>) -> Option<ExprView> {
    match e {
        Some(e) => Some(e@),
        None => None,
    }
}

/// The mathematical value of a statement.
pub open spec fn stmt_view(s: Stmt) -> StmtView
    decreases s,
{
    match s {
        Stmt::Break => StmtView::Break,
        Stmt::Continue => StmtView::Continue,
        Stmt::Block { statements } => StmtView::Block {
            statements: Seq::new(
                statements@.len(),
                |i: int|
                    if 0 <= i < statements@.len() {
                        stmt_view(statements@[i])
                    } else {
                        StmtView::NONE
                    },
            ),
        },
        Stmt::While { condition, body } => StmtView::While {
            condition: condition@,
            body: Box::new(stmt_view(*body)),
        },
        Stmt::Expression { expression } => StmtView::Expression { expression: expression@ },
        Stmt::Print { expression } => StmtView::Print { expression: expression@ },
        Stmt::Var { name, initializer } => StmtView::Var {
            name: name@,
            initializer: optional_expr_view(initializer),
        },
        Stmt::If { condition, then_branch, else_branch } => StmtView::If {
            condition: condition@,
            then_branch: Box::new(stmt_view(*then_branch)),
            else_branch: match *else_branch {
                Some(e) => Some(Box::new(stmt_view(e))),
                None => None,
            },
        },
        Stmt::Function { name, paramaters, body } => StmtView::Function {
            name: name@,
            paramaters: tokens_view(paramaters@),
            body: Seq::new(
                body@.len(),
                |i: int|
                    if 0 <= i < body@.len() {
                        stmt_view(body@[i])
                    } else {
                        StmtView::NONE
                    },
            ),
        },
        Stmt::Return { keyword, value } => StmtView::Return {
            keyword: keyword@,
            value: optional_expr_view(value),
        },
        Stmt::NONE => StmtView::NONE,
    }
}

impl View for Stmt {
    type V = StmtView;

    open spec fn view(&self) -> StmtView {
        stmt_view(*self)
    }
}

/// The views of a sequence of statements, one for one.
pub open spec fn stmts_view(stmts: Seq<Stmt>) -> Seq<StmtView> {
    Seq::new(stmts.len(), |i: int| stmts[i]@)
}

/// The arguments of a call, seen through its view, are the views of its
/// arguments.
pub proof fn lemma_call_view(callee: Box<Expr>, paren: Token, arguments: Vec<Expr>)
    ensures
        (Expr::Call { callee, paren, arguments })@ == (ExprView::Call {
            callee: Box::new(callee@),
            paren: paren@,
            arguments: exprs_view(arguments@),
        }),
{
    let e = Expr::Call { callee, paren, arguments };
    assert(e@->Call_arguments =~= exprs_view(arguments@));
}

/// The statements of a block, seen through its view, are the views of its
/// statements.
pub proof fn lemma_block_view(statements: Vec<Stmt>)
    ensures
        (Stmt::Block { statements })@ == (StmtView::Block { statements: stmts_view(statements@) }),
{
    let s = Stmt::Block { statements };
    assert(s@->Block_statements =~= stmts_view(statements@));
}

/// The body of a function declaration, seen through its view, is the views
/// of its statements.
pub proof fn lemma_function_view(name: Token, paramaters: Vec<Token>, body: Vec<Stmt>)
    ensures
        (Stmt::Function { name, paramaters, body })@ == (StmtView::Function {
            name: name@,
            paramaters: tokens_view(paramaters@),
            body: stmts_view(body@),
        }),
{
    let s = Stmt::Function { name, paramaters, body };
    assert(s@->Function_body =~= stmts_view(body@));
}

impl Expr {
    /// Hands the node to the method of the visitor that is for its kind.
    pub fn accept<'a, T, V: expr::Visitor<'a, T>>(&'a self, visitor: &mut V) -> (r: Result<
        T,
        LoxError,
    >)
        requires
            old(visitor).ready(),
        ensures
            old(visitor).visits(self@, final(visitor), &r),
    {
        match self {
            Expr::Binary { left, operator, right } => visitor.visit_binary_expr(
                left,
                operator,
                right,
            ),
            Expr::Grouping { expression } => visitor.visit_grouping_expr(expression),
            Expr::Literal { value } => visitor.visit_literal_expr(value),
            Expr::Unary { operator, right } => visitor.visit_unary_expr(operator, right),
            Expr::Assign { name, value } => visitor.visit_assignment_expr(name, value),
            Expr::Variable { name } => visitor.visit_variable_expr(name),
            Expr::Logical { left, operator, right } => visitor.visit_logical_expr(
                left,
                operator,
                right,
            ),
            Expr::Call { callee, paren, arguments } => {
                proof {
                    lemma_call_view(*callee, *paren, *arguments);
                }
                visitor.visit_call_expr(callee, paren, arguments)
            },
        }
    }
}

impl Stmt {
    /// Hands the node to the method of the visitor that is for its kind.
    pub fn accept<'a, T, V: stmt::Visitor<'a, T>>(&'a self, visitor: &mut V) -> (r: Result<
        T,
        LoxError,
    >)
        requires
            old(visitor).ready(),
            !(self is NONE),
        ensures
            old(visitor).visits(self@, final(visitor), &r),
    {
        match self {
            Stmt::Block { statements } => {
                proof {
                    lemma_block_view(*statements);
                }
                visitor.visit_block_stmt(statements)
            },
            Stmt::Expression { expression } => visitor.visit_expression_stmt(expression),
            Stmt::Print { expression } => visitor.visit_print_stmt(expression),
            Stmt::Var { name, initializer } => visitor.visit_var_stmt(name, initializer),
            Stmt::If { condition, then_branch, else_branch } => visitor.visit_if_statement(
                condition,
                then_branch,
                else_branch,
            ),
            Stmt::While { condition, body } => visitor.visit_while_statement(condition, body),
            Stmt::Break => visitor.visit_break_stmt(),
            Stmt::Continue => visitor.visit_continue_stmt(),
            Stmt::Function { name, paramaters, body } => {
                proof {
                    lemma_function_view(*name, *paramaters, *body);
                }
                visitor.visit_function_stmt(name, paramaters, body)
            },
            Stmt::Return { keyword, value } => visitor.visit_return_stmt(keyword, value),
            Stmt::NONE => vstd::pervasive::unreached(),
        }
    }
}

/// Prints an expression as a parenthesised prefix form, such as
/// `(* (- 123) (group 45.67))`.
pub struct ASTPrinter;

/// The text of `name` and the operands in parentheses.
pub open spec fn parenthesized(name: Seq<char>, operands: Seq<char>) -> Seq<char> {
    "("@ + name + operands + ")"@
}

/// The printed form of an expression.
pub open spec fn printed(e: ExprView) -> Seq<char>
    decreases e, 0nat,
{
    match e {
        ExprView::Binary { left, operator, right } => parenthesized(
            operator.lexeme,
            " "@ + printed(*left) + " "@ + printed(*right),
        ),
        ExprView::Logical { left, operator, right } => parenthesized(
            operator.lexeme,
            " "@ + printed(*left) + " "@ + printed(*right),
        ),
        ExprView::Grouping { expression } => parenthesized("group"@, " "@ + printed(*expression)),
        ExprView::Literal { value } => Literal::text(value),
        ExprView::Unary { operator, right } => parenthesized(
            operator.lexeme,
            " "@ + printed(*right),
        ),
        ExprView::Assign { name, value } => parenthesized(name.lexeme, " "@ + printed(*value)),
        ExprView::Variable { name } => name.lexeme,
        ExprView::Call { callee, paren, arguments } => parenthesized(
            "call"@,
            " "@ + printed(*callee) + printed_each(arguments, arguments.len()),
        ),
    }
}

/// The printed forms of the first `count` expressions, a space before each.
pub open spec fn printed_each(es: Seq<ExprView>, count: nat) -> Seq<char>
    decreases es, count,
{
    if count == 0 || count > es.len() {
        Seq::empty()
    } else {
        printed_each(es, (count - 1) as nat) + " "@ + printed(es[count - 1])
    }
}

impl ASTPrinter {
    /// A printer. It keeps no state.
    pub fn new() -> (r: Self) {
        ASTPrinter
    }

    /// Prints an expression.
    pub fn print(&mut self, expr: Expr) -> (r: Result<String, LoxError>)
        ensures
            r matches Ok(text) && text@ == printed(expr@),
    {
        expr.accept(self)
    }

    /// Prints `name` and the expressions in parentheses, a space before
    /// each expression.
    pub fn parenthesize(&mut self, name: String, expressions: Vec<&Expr>) -> (r: Result<
        String,
        LoxError,
    >)
        ensures
            r matches Ok(text) && text@ == parenthesized(
                name@,
                printed_each(views_of(expressions@), expressions@.len()),
            ),
    {
        let mut text = String::from_str("(");
        push_text(&mut text, name.as_str());
        let ghost head = text@;
        let mut i: usize = 0;
        while i < expressions.len()
            invariant
                i <= expressions@.len(),
                text@ == head + printed_each(views_of(expressions@), i as nat),
            decreases expressions@.len() - i,
        {
            let part = self.render(expressions[i]);
            push_text(&mut text, " ");
            push_text(&mut text, part.as_str());
            i += 1;
            assert(text@ =~= head + printed_each(views_of(expressions@), i as nat));
        }
        push_text(&mut text, ")");
        assert(text@ =~= parenthesized(
            name@,
            printed_each(views_of(expressions@), expressions@.len()),
        ));
        Ok(text)
    }

    /// The printed form of an expression.
    #[verifier::loop_isolation(false)]
    fn render(&self, e: &Expr) -> (r: String)
        ensures
            r@ == printed(e@),
        decreases e,
    {
        match e {
            Expr::Binary { left, operator, right } => {
                let first = self.render(left);
                let second = self.render(right);
                wrap_pair(operator, first, second)
            },
            Expr::Logical { left, operator, right } => {
                let first = self.render(left);
                let second = self.render(right);
                wrap_pair(operator, first, second)
            },
            Expr::Grouping { expression } => {
                let inner = self.render(expression);
                let mut text = String::from_str("(group ");
                push_text(&mut text, inner.as_str());
                push_text(&mut text, ")");
                proof {
                    reveal_strlit("(group ");
                    reveal_strlit("(");
                    reveal_strlit("group");
                    reveal_strlit(" ");
                    assert(text@ =~= printed(e@));
                }
                text
            },
            Expr::Literal { value } => value.to_string(),
            Expr::Unary { operator, right } => {
                let inner = self.render(right);
                let mut text = String::from_str("(");
                push_text(&mut text, operator.lexeme.as_str());
                push_text(&mut text, " ");
                push_text(&mut text, inner.as_str());
                push_text(&mut text, ")");
                assert(text@ =~= printed(e@));
                text
            },
            Expr::Assign { name, value } => {
                let inner = self.render(value);
                let mut text = String::from_str("(");
                push_text(&mut text, name.lexeme.as_str());
                push_text(&mut text, " ");
                push_text(&mut text, inner.as_str());
                push_text(&mut text, ")");
                assert(text@ =~= printed(e@));
                text
            },
            Expr::Variable { name } => name.lexeme.clone(),
            Expr::Call { callee, paren, arguments } => {
                proof {
                    lemma_call_view(*callee, *paren, *arguments);
                }
                let inner = self.render(callee);
                let mut text = String::from_str("(call ");
                push_text(&mut text, inner.as_str());
                let ghost head = text@;
                let mut i: usize = 0;
                while i < arguments.len()
                    invariant
                        i <= arguments@.len(),
                        text@ == head + printed_each(exprs_view(arguments@), i as nat),
                    decreases arguments@.len() - i,
                {
                    assert(decreases_to!(e => arguments));
                    assert(decreases_to!(arguments => arguments@));
                    assert(decreases_to!(arguments@ => arguments@[i as int]));
                    let part = self.render(&arguments[i]);
                    push_text(&mut text, " ");
                    push_text(&mut text, part.as_str());
                    i += 1;
                    assert(text@ =~= head + printed_each(exprs_view(arguments@), i as nat));
                }
                push_text(&mut text, ")");
                proof {
                    reveal_strlit("(call ");
                    reveal_strlit("(");
                    reveal_strlit("call");
                    reveal_strlit(" ");
                    assert(text@ =~= printed(e@));
                }
                text
            },
        }
    }
}

/// The operator and the printed forms of its two operands in parentheses.
fn wrap_pair(operator: &Token, first: String, second: String) -> (r: String)
    ensures
        r@ == parenthesized(operator@.lexeme, " "@ + first@ + " "@ + second@),
{
    let mut text = String::from_str("(");
    push_text(&mut text, operator.lexeme.as_str());
    push_text(&mut text, " ");
    push_text(&mut text, first.as_str());
    push_text(&mut text, " ");
    push_text(&mut text, second.as_str());
    push_text(&mut text, ")");
    assert(text@ =~= parenthesized(operator@.lexeme, " "@ + first@ + " "@ + second@));
    text
}

/// The views of the expressions that a list refers to.
pub open spec fn views_of(expressions: Seq<&Expr>) -> Seq<ExprView> {
    Seq::new(expressions.len(), |i: int| expressions[i]@)
}

/// The printed forms of a first expression and of `count` that follow it.
proof fn lemma_each_after_first(first: ExprView, rest: Seq<ExprView>, count: nat)
    requires
        count <= rest.len(),
    ensures
        printed_each(seq![first] + rest, count + 1) == " "@ + printed(first) + printed_each(
            rest,
            count,
        ),
    decreases count,
{
    let all = seq![first] + rest;
    if count == 0 {
        assert(printed_each(all, 0) == Seq::<char>::empty());
        assert(all[0] == first);
        assert(printed_each(all, 1) =~= " "@ + printed(first));
        assert(printed_each(all, 1) =~= " "@ + printed(first) + printed_each(rest, 0));
    } else {
        lemma_each_after_first(first, rest, (count - 1) as nat);
        assert(all[count as int] == rest[count - 1]);
        assert(printed_each(all, count + 1) =~= " "@ + printed(first) + printed_each(rest, count));
    }
}

impl<'a> expr::Visitor<'a, String> for ASTPrinter {
    open spec fn ready(&self) -> bool {
        true
    }

    /// A visit returns the printed form of the node.
    open spec fn visits(&self, node: ExprView, after: &Self, result: &Result<String, LoxError>) -> bool {
        result matches Ok(text) && text@ == printed(node)
    }

    fn visit_unary_expr(&mut self, operator: &'a Token, right: &'a Expr) -> (r: Result<
        String,
        LoxError,
    >) {
        let only = vec![right];
        proof {
            assert(views_of(only@) =~= seq![right@]);
            lemma_single(right@, views_of(only@));
        }
        self.parenthesize(operator.lexeme.clone(), only)
    }

    fn visit_binary_expr(&mut self, left: &'a Expr, operator: &'a Token, right: &'a Expr) -> (r:
        Result<String, LoxError>) {
        let r = self.parenthesize(operator.lexeme.clone(), vec![left, right]);
        proof {
            lemma_pair(left@, right@, views_of(seq![left, right]));
        }
        r
    }

    fn visit_literal_expr(&mut self, value: &'a Literal) -> (r: Result<String, LoxError>) {
        Ok(value.to_string())
    }

    fn visit_grouping_expr(&mut self, expression: &'a Expr) -> (r: Result<String, LoxError>) {
        let only = vec![expression];
        proof {
            assert(views_of(only@) =~= seq![expression@]);
            lemma_single(expression@, views_of(only@));
        }
        self.parenthesize(String::from_str("group"), only)
    }

    fn visit_variable_expr(&mut self, name: &'a Token) -> (r: Result<String, LoxError>) {
        Ok(name.lexeme.clone())
    }

    fn visit_assignment_expr(&mut self, name: &'a Token, value: &'a Expr) -> (r: Result<
        String,
        LoxError,
    >) {
        let only = vec![value];
        proof {
            assert(views_of(only@) =~= seq![value@]);
            lemma_single(value@, views_of(only@));
        }
        self.parenthesize(name.lexeme.clone(), only)
    }

    fn visit_logical_expr(&mut self, left: &'a Expr, operator: &'a Token, right: &'a Expr) -> (r:
        Result<String, LoxError>) {
        let r = self.parenthesize(operator.lexeme.clone(), vec![left, right]);
        proof {
            lemma_pair(left@, right@, views_of(seq![left, right]));
        }
        r
    }

    fn visit_call_expr(&mut self, callee: &'a Expr, paren: &'a Token, arguments: &'a Vec<Expr>) -> (r:
        Result<String, LoxError>) {
        let mut all: Vec<&Expr> = Vec::new();
        all.push(callee);
        let mut i: usize = 0;
        while i < arguments.len()
            invariant
                i <= arguments@.len(),
                all@.len() == i + 1,
                all@[0]@ == callee@,
                forall|j: int| 0 <= j < i ==> (#[trigger] all@[j + 1])@ == arguments@[j]@,
            decreases arguments@.len() - i,
        {
            all.push(&arguments[i]);
            i += 1;
        }
        proof {
            let expected = seq![callee@] + exprs_view(arguments@);
            assert forall|j: int| 0 <= j < expected.len() implies views_of(all@)[j]
                == expected[j] by {
                if j > 0 {
                    assert(all@[(j - 1) + 1]@ == arguments@[j - 1]@);
                }
            }
            assert(views_of(all@) =~= expected);
            lemma_each_after_first(callee@, exprs_view(arguments@), arguments@.len() as nat);
        }
        self.parenthesize(String::from_str("call"), all)
    }
}

/// The printed form of one expression, a space before it.
proof fn lemma_single(only: ExprView, views: Seq<ExprView>)
    requires
        views =~= seq![only],
    ensures
        printed_each(views, 1) == " "@ + printed(only),
{
    assert(printed_each(views, 0) == Seq::<char>::empty());
    assert(printed_each(views, 1) =~= " "@ + printed(only));
}

/// The printed forms of two expressions, a space before each.
proof fn lemma_pair(left: ExprView, right: ExprView, views: Seq<ExprView>)
    requires
        views =~= seq![left, right],
    ensures
        printed_each(views, 2) == " "@ + printed(left) + " "@ + printed(right),
{
    assert(printed_each(views, 0) == Seq::<char>::empty());
    assert(printed_each(views, 1) =~= " "@ + printed(left));
    assert(printed_each(views, 2) =~= " "@ + printed(left) + " "@ + printed(right));
}

} // verus!

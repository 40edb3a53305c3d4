//! The recursive-descent parser: tokens become a list of statements.
//!
//! Every method does what the rule of the same name in [`grammar`] says; the
//! diagnostics are collected for the caller to show.
//!
//! The methods call each other as the rules refer to each other. They end
//! because each call either has fewer tokens left or is of a rule of lower
//! rank: the number after the tokens left in each `decreases` clause.
use vstd::prelude::*;
use crate::ast_tools::{exprs_view, optional_expr_view, stmts_view, Expr, ExprView, Stmt, StmtView};
use crate::error::{
    diagnostics_view,
    report_parse_error,
    Diagnostic,
    DiagnosticView,
    LoxError,
    LoxErrorView,
};
use crate::token::{tokens_view, Literal, Token, TokenType, TokenView};
use crate::parser::grammar::{
    advanced,
    at_end,
    check,
    consume,
    level_has,
    ok,
    reported,
    Level,
    ParserState,
    MAX_ARITY,
};

pub mod grammar;
pub mod precedence;

verus! {

/// The parser's state: the tokens, the index of the next one and the
/// diagnostics reported so far.
pub struct Parser {
    tokens: Vec<Token>,
    current: usize,
    diagnostics: Vec<Diagnostic>,
}

/// The outcome is the tree that the rule gives, or the syntax error if the
/// rule gives none.
pub open spec fn expr_result(r: Result<Expr, LoxError>, expected: Option<ExprView>) -> bool {
    match r {
        Ok(e) => expected == Some(e@),
        Err(e) => expected.is_none() && e@ == LoxErrorView::Parse,
    }
}

/// The outcome is the statement that the rule gives, or the syntax error if
/// the rule gives none.
pub open spec fn stmt_result(r: Result<Stmt, LoxError>, expected: Option<StmtView>) -> bool {
    match r {
        Ok(s) => expected == Some(s@),
        Err(e) => expected.is_none() && e@ == LoxErrorView::Parse,
    }
}

/// The outcome is the list of statements that the rule gives, or the syntax
/// error if the rule gives none.
pub open spec fn stmts_result(r: Result<Vec<Stmt>, LoxError>, expected: Option<Seq<StmtView>>) -> bool {
    match r {
        Ok(s) => expected == Some(stmts_view(s@)),
        Err(e) => expected.is_none() && e@ == LoxErrorView::Parse,
    }
}

/// The outcome is the optional expression that the rule gives, or the syntax
/// error if the rule gives none.
pub open spec fn optional_expr_result(
    r: Result<Option<Expr>, LoxError>,
    expected: Option<Option<ExprView>>,
) -> bool {
    match r {
        Ok(e) => expected == Some(optional_expr_view(e)),
        Err(e) => expected.is_none() && e@ == LoxErrorView::Parse,
    }
}

/// The outcome is the optional statement that the rule gives, or the syntax
/// error if the rule gives none.
pub open spec fn optional_stmt_result(
    r: Result<Option<Stmt>, LoxError>,
    expected: Option<Option<StmtView>>,
) -> bool {
    match r {
        Ok(Some(s)) => expected == Some(Some(s@)),
        Ok(None) => expected == Some(None::<StmtView>),
        Err(e) => expected.is_none() && e@ == LoxErrorView::Parse,
    }
}

fn level_includes(level: Level, kind: TokenType) -> (r: bool)
    ensures
        r == level_has(level, kind),
{
    match level {
        Level::Or => kind == TokenType::OR,
        Level::And => kind == TokenType::AND,
        Level::Equality => kind == TokenType::BANG_EQUAL || kind == TokenType::EQUAL_EQUAL,
        Level::Comparison => kind == TokenType::GREATER || kind == TokenType::GREATER_EQUAL || kind
            == TokenType::LESS || kind == TokenType::LESS_EQUAL,
        Level::Term => kind == TokenType::PLUS || kind == TokenType::MINUS,
        Level::Factor => kind == TokenType::SLASH || kind == TokenType::STAR,
    }
}

/// Builds the loop that a `for` statement stands for: the body followed by
/// the increment, run while the condition holds, after the initializer.
pub fn desugar(
    initializer: Option<Stmt>,
    condition: Option<Expr>,
    increment: Option<Expr>,
    body: Stmt,
) -> (r: Stmt)
    ensures
        r@ == grammar::desugar_for(
            match initializer {
                Some(s) => Some(s@),
                None => None,
            },
            optional_expr_view(condition),
            optional_expr_view(increment),
            body@,
        ),
{
    let stepped = match increment {
        Some(incr) => {
            let ghost expected = seq![body@, StmtView::Expression { expression: incr@ }];
            let step = Stmt::Expression { expression: incr };
            assert(step@ == StmtView::Expression { expression: incr@ });
            let made = Stmt::Block { statements: vec![body, step] };
            proof {
                assert(made@->Block_statements =~= expected);
            }
            made
        },
        None => body,
    };
    let looped = Stmt::While {
        condition: match condition {
            Some(c) => c,
            None => Expr::Literal { value: Literal::Boolean(true) },
        },
        body: Box::new(stepped),
    };
    match initializer {
        Some(init) => {
            let ghost expected = seq![init@, looped@];
            let made = Stmt::Block { statements: vec![init, looped] };
            proof {
                assert(made@->Block_statements =~= expected);
            }
            made
        },
        None => looped,
    }
}

spec fn exec_rank(level: Level) -> nat {
    match level {
        Level::Or => 30,
        Level::And => 27,
        Level::Equality => 24,
        Level::Comparison => 21,
        Level::Term => 18,
        Level::Factor => 15,
    }
}

impl Parser {
    /// The tokens being parsed.
    pub closed spec fn tokens(&self) -> Seq<TokenView> {
        tokens_view(self.tokens@)
    }

    /// The index of the next token and the diagnostics reported so far.
    pub closed spec fn state(&self) -> ParserState {
        ParserState {
            current: self.current as int,
            diagnostics: diagnostics_view(self.diagnostics@),
        }
    }

    /// The tokens end in the end-of-file token and the parser stands on one
    /// of them.
    pub closed spec fn wf(&self) -> bool {
        &&& self.current < self.tokens@.len()
        &&& self.tokens@[self.tokens@.len() - 1].token_type == TokenType::EOF
    }

    /// The parser has the same tokens as `before`, stands in `state` and has
    /// not moved backwards.
    pub closed spec fn moved_to(&self, before: &Parser, state: ParserState) -> bool {
        &&& self.wf()
        &&& self.tokens == before.tokens
        &&& self.state() == state
        &&& self.current >= before.current
    }

    /// The parser stands beyond the token that `before` stood on.
    pub closed spec fn moved_on(&self, before: &Parser) -> bool {
        self.current > before.current
    }

    /// The number of tokens not yet consumed.
    pub closed spec fn pending(&self) -> nat {
        (self.tokens@.len() - self.current) as nat
    }

    /// A parser at the first of the tokens.
    pub fn new(tokens: Vec<Token>) -> (r: Self)
        ensures
            r.tokens() == tokens_view(tokens@),
            r.state() == grammar::initial(),
            r.wf() <==> tokens@.len() > 0 && tokens@[tokens@.len() - 1].token_type
                == TokenType::EOF,
    {
        let r = Parser { tokens, current: 0, diagnostics: Vec::new() };
        assert(r.state().diagnostics =~= Seq::<DiagnosticView>::empty());
        r
    }

    /// The diagnostics reported so far, in the order in which they were found.
    pub fn diagnostics(&self) -> (r: &Vec<Diagnostic>)
        ensures
            diagnostics_view(r@) == self.state().diagnostics,
    {
        &self.diagnostics
    }

    /// Parses the whole program. Fails if any syntax error was reported; the
    /// diagnostics say where.
    #[verifier::loop_isolation(false)]
    pub fn parse(&mut self) -> (r: Result<Vec<Stmt>, LoxError>)
        requires
            old(self).wf(),
        ensures
            final(self).wf(),
            final(self).tokens() == old(self).tokens(),
            final(self).state() == grammar::program(
                old(self).tokens(),
                old(self).state(),
                Seq::empty(),
            ).state,
            ({
                let all = grammar::program(old(self).tokens(), old(self).state(), Seq::empty());
                match r {
                    Ok(v) => all.state.diagnostics.len() == 0 && all.value == Some(stmts_view(v@)),
                    Err(e) => all.state.diagnostics.len() > 0 && e@ == LoxErrorView::Parse,
                }
            }),
            old(self).state() == grammar::initial() ==> stmts_result(
                r,
                grammar::parse_tokens(old(self).tokens()),
            ) && final(self).state().diagnostics == grammar::parse_report(old(self).tokens()),
    {
        reveal(grammar::parse_tokens);
        reveal(grammar::parse_report);
        let ghost ts = self.tokens();
        let ghost goal = grammar::program(ts, self.state(), Seq::empty());
        let mut statements: Vec<Stmt> = Vec::new();
        assert(stmts_view(statements@) =~= Seq::<StmtView>::empty());
        while !self.is_at_end()
            invariant
                self.wf(),
                self.tokens == old(self).tokens,
                self.current >= old(self).current,
                goal == grammar::program(ts, self.state(), stmts_view(statements@)),
            decreases self.pending(),
        {
            let item = self.declaration();
            match item {
                Ok(statement) => {
                    proof {
                        assert(stmts_view(statements@.push(statement)) =~= stmts_view(
                            statements@,
                        ).push(statement@));
                    }
                    statements.push(statement);
                },
                Err(e) => {
                    return Err(e);
                },
            }
        }
        if self.diagnostics.len() > 0 {
            Err(LoxError::Parse)
        } else {
            Ok(statements)
        }
    }

    fn declaration(&mut self) -> (r: Result<Stmt, LoxError>)
        requires
            old(self).wf(),
        ensures
            final(self).moved_to(
                old(self),
                grammar::declaration(old(self).tokens(), old(self).state()).state,
            ),
            r matches Ok(s) && grammar::declaration(old(self).tokens(), old(self).state()).value
                == Some(s@),
            !at_end(old(self).tokens(), old(self).state()) ==> final(self).moved_on(old(self)),
        decreases old(self).pending(), 100nat,
    {
        let statement = if self.match_token(TokenType::VAR) {
            self.var_declaration()
        } else if self.match_token(TokenType::FUN) {
            self.function()
        } else {
            self.statement()
        };
        match statement {
            Err(_) => {
                self.synchronize();
                Ok(Stmt::NONE)
            },
            Ok(made) => Ok(made),
        }
    }

    fn optional_expression(&mut self, present: bool) -> (r: Result<Option<Expr>, LoxError>)
        requires
            old(self).wf(),
        ensures
            final(self).moved_to(
                old(self),
                grammar::optional_expression(old(self).tokens(), old(self).state(), present).state,
            ),
            optional_expr_result(
                r,
                grammar::optional_expression(old(self).tokens(), old(self).state(), present).value,
            ),
        decreases old(self).pending(), 41nat,
    {
        if present {
            Ok(Some(self.expression()?))
        } else {
            Ok(None)
        }
    }

    /// Ends a statement with its semicolon.
    fn keyword_statement(&mut self, made: Stmt, message: &str) -> (r: Result<Stmt, LoxError>)
        requires
            old(self).wf(),
        ensures
            final(self).moved_to(
                old(self),
                grammar::keyword_statement(
                    old(self).tokens(),
                    old(self).state(),
                    made@,
                    message@,
                ).state,
            ),
            stmt_result(
                r,
                grammar::keyword_statement(
                    old(self).tokens(),
                    old(self).state(),
                    made@,
                    message@,
                ).value,
            ),
            r.is_ok() ==> final(self).moved_on(old(self)),
    {
        self.consume(TokenType::SEMICOLON, message)?;
        Ok(made)
    }

    fn var_declaration(&mut self) -> (r: Result<Stmt, LoxError>)
        requires
            old(self).wf(),
        ensures
            final(self).moved_to(
                old(self),
                grammar::var_declaration(old(self).tokens(), old(self).state()).state,
            ),
            stmt_result(r, grammar::var_declaration(old(self).tokens(), old(self).state()).value),
            r.is_ok() ==> final(self).moved_on(old(self)),
        decreases old(self).pending(), 200nat,
    {
        let name = self.consume(TokenType::IDENTIFIER, "Expected variable name.")?;
        let given = self.match_token(TokenType::EQUAL);
        let initializer = self.optional_expression(given)?;
        self.consume(TokenType::SEMICOLON, "Expected ';' after variable name.")?;
        Ok(Stmt::Var { name, initializer })
    }

    fn function(&mut self) -> (r: Result<Stmt, LoxError>)
        requires
            old(self).wf(),
        ensures
            final(self).moved_to(
                old(self),
                grammar::function(old(self).tokens(), old(self).state()).state,
            ),
            stmt_result(r, grammar::function(old(self).tokens(), old(self).state()).value),
            r.is_ok() ==> final(self).moved_on(old(self)),
        decreases old(self).pending(), 210nat,
    {
        let name = self.consume(TokenType::IDENTIFIER, "Expect function name.")?;
        self.consume(TokenType::LEFT_PAREN, "Expected '(' after functoin name.")?;
        let paramaters = if self.check(TokenType::RIGHT_PAREN) {
            let none: Vec<Token> = Vec::new();
            assert(tokens_view(none@) =~= Seq::<TokenView>::empty());
            none
        } else {
            self.parameters()?
        };
        self.consume(TokenType::RIGHT_PAREN, "Expected ')' after paramaters")?;
        self.consume(TokenType::LEFT_BRACE, "Expected '{' after function declaration.")?;
        let body = self.block()?;
        let made = Stmt::Function { name, paramaters, body };
        proof {
            assert(made@->Function_body =~= stmts_view(body@));
        }
        Ok(made)
    }

    /// The parameters of a function, up to the closing parenthesis.
    #[verifier::loop_isolation(false)]
    fn parameters(&mut self) -> (r: Result<Vec<Token>, LoxError>)
        requires
            old(self).wf(),
        ensures
            final(self).moved_to(
                old(self),
                grammar::parameters(old(self).tokens(), old(self).state(), Seq::empty()).state,
            ),
            match r {
                Ok(v) => grammar::parameters(
                    old(self).tokens(),
                    old(self).state(),
                    Seq::empty(),
                ).value == Some(tokens_view(v@)),
                Err(e) => e@ == LoxErrorView::Parse && grammar::parameters(
                    old(self).tokens(),
                    old(self).state(),
                    Seq::empty(),
                ).value.is_none(),
            },
    {
        let ghost ts = self.tokens();
        let ghost goal = grammar::parameters(ts, self.state(), Seq::empty());
        let mut paramaters: Vec<Token> = Vec::new();
        let mut more = true;
        assert(tokens_view(paramaters@) =~= Seq::<TokenView>::empty());
        while more
            invariant
                self.wf(),
                self.tokens == old(self).tokens,
                self.current >= old(self).current,
                goal == if more {
                    grammar::parameters(ts, self.state(), tokens_view(paramaters@))
                } else {
                    ok(tokens_view(paramaters@), self.state())
                },
            decreases self.pending() + if more { 1nat } else { 0nat },
        {
            if paramaters.len() >= MAX_ARITY {
                self.error_here("Cannot have more than 255 params.");
            }
            let parameter = self.consume(TokenType::IDENTIFIER, "Expected paramater.")?;
            proof {
                assert(tokens_view(paramaters@.push(parameter)) =~= tokens_view(paramaters@).push(
                    parameter@,
                ));
            }
            paramaters.push(parameter);
            more = self.match_token(TokenType::COMMA);
        }
        Ok(paramaters)
    }

    /// Skips to the next place at which a statement may start.
    #[verifier::loop_isolation(false)]
    fn synchronize(&mut self)
        requires
            old(self).wf(),
        ensures
            final(self).moved_to(
                old(self),
                grammar::synchronize(old(self).tokens(), old(self).state()),
            ),
            !at_end(old(self).tokens(), old(self).state()) ==> final(self).moved_on(old(self)),
    {
        let ghost ts = self.tokens();
        let ghost goal = grammar::synchronize(ts, self.state());
        self.advance();
        while !self.is_at_end()
            invariant
                self.wf(),
                self.tokens == old(self).tokens,
                self.current >= old(self).current,
                !at_end(ts, old(self).state()) ==> self.current > old(self).current,
                goal == grammar::skip_to_boundary(ts, self.state()),
            decreases self.pending(),
        {
            if self.previous().token_type == TokenType::SEMICOLON {
                return ;
            }
            match self.peek().token_type {
                TokenType::CLASS
                | TokenType::FUN
                | TokenType::VAR
                | TokenType::FOR
                | TokenType::IF
                | TokenType::WHILE
                | TokenType::PRINT
                | TokenType::RETURN => {
                    return ;
                },
                _ => {
                    self.advance();
                },
            }
        }
    }

    fn statement(&mut self) -> (r: Result<Stmt, LoxError>)
        requires
            old(self).wf(),
        ensures
            final(self).moved_to(
                old(self),
                grammar::statement(old(self).tokens(), old(self).state()).state,
            ),
            stmt_result(r, grammar::statement(old(self).tokens(), old(self).state()).value),
            r.is_ok() ==> final(self).moved_on(old(self)),
        decreases old(self).pending(), 90nat,
    {
        if self.match_token(TokenType::BREAK) {
            self.keyword_statement(Stmt::Break, "Expected ';' after break")
        } else if self.match_token(TokenType::CONTINUE) {
            self.keyword_statement(Stmt::Continue, "Expected ';' after continue.")
        } else if self.match_token(TokenType::IF) {
            self.if_statement()
        } else if self.match_token(TokenType::PRINT) {
            self.print_statement()
        } else if self.match_token(TokenType::RETURN) {
            self.return_statement()
        } else if self.match_token(TokenType::LEFT_BRACE) {
            let statements = self.block()?;
            let made = Stmt::Block { statements };
            proof {
                assert(made@->Block_statements =~= stmts_view(statements@));
            }
            Ok(made)
        } else if self.match_token(TokenType::WHILE) {
            self.while_statement()
        } else if self.match_token(TokenType::FOR) {
            self.for_statement()
        } else {
            self.expression_statement()
        }
    }

    /// A parenthesised condition, with the messages of its statement.
    fn condition(&mut self, before: &str, after: &str) -> (r: Result<Expr, LoxError>)
        requires
            old(self).wf(),
        ensures
            final(self).moved_to(
                old(self),
                grammar::condition(old(self).tokens(), old(self).state(), before@, after@).state,
            ),
            expr_result(
                r,
                grammar::condition(old(self).tokens(), old(self).state(), before@, after@).value,
            ),
            r.is_ok() ==> final(self).moved_on(old(self)),
        decreases old(self).pending(), 42nat,
    {
        self.consume(TokenType::LEFT_PAREN, before)?;
        let test = self.expression()?;
        self.consume(TokenType::RIGHT_PAREN, after)?;
        Ok(test)
    }

    fn if_statement(&mut self) -> (r: Result<Stmt, LoxError>)
        requires
            old(self).wf(),
        ensures
            final(self).moved_to(
                old(self),
                grammar::if_statement(old(self).tokens(), old(self).state()).state,
            ),
            stmt_result(r, grammar::if_statement(old(self).tokens(), old(self).state()).value),
            r.is_ok() ==> final(self).moved_on(old(self)),
        decreases old(self).pending(), 200nat,
    {
        let condition = self.condition("Expected '(' after if.", "Expected ')' after if condition.")?;
        let then_branch = self.statement()?;
        if self.match_token(TokenType::ELSE) {
            let else_branch = Some(self.statement()?);
            Ok(
                Stmt::If {
                    condition,
                    then_branch: Box::new(then_branch),
                    else_branch: Box::new(else_branch),
                },
            )
        } else {
            Ok(
                Stmt::If {
                    condition,
                    then_branch: Box::new(then_branch),
                    else_branch: Box::new(None),
                },
            )
        }
    }

    #[verifier::loop_isolation(false)]
    fn block(&mut self) -> (r: Result<Vec<Stmt>, LoxError>)
        requires
            old(self).wf(),
        ensures
            final(self).moved_to(
                old(self),
                grammar::block(old(self).tokens(), old(self).state()).state,
            ),
            stmts_result(r, grammar::block(old(self).tokens(), old(self).state()).value),
            r.is_ok() ==> final(self).moved_on(old(self)),
        decreases old(self).pending(), 160nat,
    {
        let ghost ts = self.tokens();
        let ghost goal = grammar::block_items(ts, self.state(), Seq::empty());
        let mut statements: Vec<Stmt> = Vec::new();
        assert(stmts_view(statements@) =~= Seq::<StmtView>::empty());
        while !self.check(TokenType::RIGHT_BRACE) && !self.is_at_end()
            invariant
                self.wf(),
                self.tokens == old(self).tokens,
                self.current >= old(self).current,
                goal == grammar::block_items(ts, self.state(), stmts_view(statements@)),
            decreases self.pending(),
        {
            let item = self.declaration();
            match item {
                Ok(statement) => {
                    proof {
                        assert(stmts_view(statements@.push(statement)) =~= stmts_view(
                            statements@,
                        ).push(statement@));
                    }
                    statements.push(statement);
                },
                Err(e) => {
                    return Err(e);
                },
            }
        }
        self.consume(TokenType::RIGHT_BRACE, "Expected '}' after blcok.")?;
        Ok(statements)
    }

    fn print_statement(&mut self) -> (r: Result<Stmt, LoxError>)
        requires
            old(self).wf(),
        ensures
            final(self).moved_to(
                old(self),
                grammar::print_statement(old(self).tokens(), old(self).state()).state,
            ),
            stmt_result(r, grammar::print_statement(old(self).tokens(), old(self).state()).value),
            r.is_ok() ==> final(self).moved_on(old(self)),
        decreases old(self).pending(), 200nat,
    {
        let value = self.expression()?;
        self.keyword_statement(Stmt::Print { expression: value }, "Expected ';' after value.")
    }

    fn expression_statement(&mut self) -> (r: Result<Stmt, LoxError>)
        requires
            old(self).wf(),
        ensures
            final(self).moved_to(
                old(self),
                grammar::expression_statement(old(self).tokens(), old(self).state()).state,
            ),
            stmt_result(
                r,
                grammar::expression_statement(old(self).tokens(), old(self).state()).value,
            ),
            r.is_ok() ==> final(self).moved_on(old(self)),
        decreases old(self).pending(), 80nat,
    {
        let expr = self.expression()?;
        self.keyword_statement(Stmt::Expression { expression: expr }, "Expected ';' after value.")
    }

    fn while_statement(&mut self) -> (r: Result<Stmt, LoxError>)
        requires
            old(self).wf(),
        ensures
            final(self).moved_to(
                old(self),
                grammar::while_statement(old(self).tokens(), old(self).state()).state,
            ),
            stmt_result(r, grammar::while_statement(old(self).tokens(), old(self).state()).value),
            r.is_ok() ==> final(self).moved_on(old(self)),
        decreases old(self).pending(), 200nat,
    {
        let condition = self.condition("Expect '(' after 'while'.", "Expect ')' after condition.")?;
        let body = Box::new(self.statement()?);
        Ok(Stmt::While { condition, body })
    }

    /// The first clause of a `for`.
    fn for_initializer(&mut self) -> (r: Result<Option<Stmt>, LoxError>)
        requires
            old(self).wf(),
        ensures
            final(self).moved_to(
                old(self),
                grammar::for_initializer(old(self).tokens(), old(self).state()).state,
            ),
            optional_stmt_result(
                r,
                grammar::for_initializer(old(self).tokens(), old(self).state()).value,
            ),
            r.is_ok() ==> final(self).moved_on(old(self)),
        decreases old(self).pending(), 201nat,
    {
        if self.match_token(TokenType::SEMICOLON) {
            Ok(None)
        } else if self.match_token(TokenType::VAR) {
            Ok(Some(self.var_declaration()?))
        } else {
            Ok(Some(self.expression_statement()?))
        }
    }

    fn for_statement(&mut self) -> (r: Result<Stmt, LoxError>)
        requires
            old(self).wf(),
        ensures
            final(self).moved_to(
                old(self),
                grammar::for_statement(old(self).tokens(), old(self).state()).state,
            ),
            stmt_result(r, grammar::for_statement(old(self).tokens(), old(self).state()).value),
            r.is_ok() ==> final(self).moved_on(old(self)),
        decreases old(self).pending(), 205nat,
    {
        self.consume(TokenType::LEFT_PAREN, "Expect '(' after 'for'.")?;
        let initializer = self.for_initializer()?;
        let tested = !self.check(TokenType::SEMICOLON);
        let condition = self.optional_expression(tested)?;
        self.consume(TokenType::SEMICOLON, "Expected ';' after loop condition.")?;
        let stepped = !self.check(TokenType::RIGHT_PAREN);
        let increment = self.optional_expression(stepped)?;
        self.consume(TokenType::RIGHT_PAREN, "Expected ')' after for clauses.")?;
        let body = self.statement()?;
        Ok(desugar(initializer, condition, increment, body))
    }

    fn return_statement(&mut self) -> (r: Result<Stmt, LoxError>)
        requires
            old(self).wf(),
            old(self).state().current >= 1,
        ensures
            final(self).moved_to(
                old(self),
                grammar::return_statement(old(self).tokens(), old(self).state()).state,
            ),
            stmt_result(r, grammar::return_statement(old(self).tokens(), old(self).state()).value),
            r.is_ok() ==> final(self).moved_on(old(self)),
        decreases old(self).pending(), 200nat,
    {
        let keyword: Token = self.previous().clone();
        let valued = !self.check(TokenType::SEMICOLON);
        let value = self.optional_expression(valued)?;
        self.keyword_statement(Stmt::Return { keyword, value }, "Expect ';' after retrun.")
    }

    fn expression(&mut self) -> (r: Result<Expr, LoxError>)
        requires
            old(self).wf(),
        ensures
            final(self).moved_to(
                old(self),
                grammar::expression(old(self).tokens(), old(self).state()).state,
            ),
            expr_result(r, grammar::expression(old(self).tokens(), old(self).state()).value),
            r.is_ok() ==> final(self).moved_on(old(self)),
        decreases old(self).pending(), 40nat,
    {
        self.assignment()
    }

    fn assignment(&mut self) -> (r: Result<Expr, LoxError>)
        requires
            old(self).wf(),
        ensures
            final(self).moved_to(
                old(self),
                grammar::assignment(old(self).tokens(), old(self).state()).state,
            ),
            expr_result(r, grammar::assignment(old(self).tokens(), old(self).state()).value),
            r.is_ok() ==> final(self).moved_on(old(self)),
        decreases old(self).pending(), 39nat,
    {
        let expr = self.or()?;
        if self.check(TokenType::EQUAL) {
            let equals = self.advance().clone();
            let value = self.assignment()?;
            match expr {
                Expr::Variable { name } => {
                    return Ok(Expr::Assign { name, value: Box::new(value) });
                },
                _ => {
                    return Err(self.error(&equals, "Invalid assignment target."));
                },
            }
        }
        Ok(expr)
    }

    fn or(&mut self) -> (r: Result<Expr, LoxError>)
        requires
            old(self).wf(),
        ensures
            final(self).moved_to(
                old(self),
                grammar::binary(old(self).tokens(), old(self).state(), Level::Or).state,
            ),
            expr_result(r, grammar::binary(old(self).tokens(), old(self).state(), Level::Or).value),
            r.is_ok() ==> final(self).moved_on(old(self)),
        decreases old(self).pending(), 31nat,
    {
        self.binary(Level::Or)
    }

    fn and(&mut self) -> (r: Result<Expr, LoxError>)
        requires
            old(self).wf(),
        ensures
            final(self).moved_to(
                old(self),
                grammar::binary(old(self).tokens(), old(self).state(), Level::And).state,
            ),
            expr_result(
                r,
                grammar::binary(old(self).tokens(), old(self).state(), Level::And).value,
            ),
            r.is_ok() ==> final(self).moved_on(old(self)),
        decreases old(self).pending(), 28nat,
    {
        self.binary(Level::And)
    }

    fn equality(&mut self) -> (r: Result<Expr, LoxError>)
        requires
            old(self).wf(),
        ensures
            final(self).moved_to(
                old(self),
                grammar::binary(old(self).tokens(), old(self).state(), Level::Equality).state,
            ),
            expr_result(
                r,
                grammar::binary(old(self).tokens(), old(self).state(), Level::Equality).value,
            ),
            r.is_ok() ==> final(self).moved_on(old(self)),
        decreases old(self).pending(), 25nat,
    {
        self.binary(Level::Equality)
    }

    fn comparison(&mut self) -> (r: Result<Expr, LoxError>)
        requires
            old(self).wf(),
        ensures
            final(self).moved_to(
                old(self),
                grammar::binary(old(self).tokens(), old(self).state(), Level::Comparison).state,
            ),
            expr_result(
                r,
                grammar::binary(old(self).tokens(), old(self).state(), Level::Comparison).value,
            ),
            r.is_ok() ==> final(self).moved_on(old(self)),
        decreases old(self).pending(), 22nat,
    {
        self.binary(Level::Comparison)
    }

    fn term(&mut self) -> (r: Result<Expr, LoxError>)
        requires
            old(self).wf(),
        ensures
            final(self).moved_to(
                old(self),
                grammar::binary(old(self).tokens(), old(self).state(), Level::Term).state,
            ),
            expr_result(
                r,
                grammar::binary(old(self).tokens(), old(self).state(), Level::Term).value,
            ),
            r.is_ok() ==> final(self).moved_on(old(self)),
        decreases old(self).pending(), 19nat,
    {
        self.binary(Level::Term)
    }

    fn factor(&mut self) -> (r: Result<Expr, LoxError>)
        requires
            old(self).wf(),
        ensures
            final(self).moved_to(
                old(self),
                grammar::binary(old(self).tokens(), old(self).state(), Level::Factor).state,
            ),
            expr_result(
                r,
                grammar::binary(old(self).tokens(), old(self).state(), Level::Factor).value,
            ),
            r.is_ok() ==> final(self).moved_on(old(self)),
        decreases old(self).pending(), 16nat,
    {
        self.binary(Level::Factor)
    }

    /// The operand of an operator of the level.
    fn operand(&mut self, level: Level) -> (r: Result<Expr, LoxError>)
        requires
            old(self).wf(),
        ensures
            final(self).moved_to(
                old(self),
                grammar::operand(old(self).tokens(), old(self).state(), level).state,
            ),
            expr_result(r, grammar::operand(old(self).tokens(), old(self).state(), level).value),
            r.is_ok() ==> final(self).moved_on(old(self)),
        decreases old(self).pending(), exec_rank(level) - 1,
    {
        match level {
            Level::Or => self.and(),
            Level::And => self.equality(),
            Level::Equality => self.comparison(),
            Level::Comparison => self.term(),
            Level::Term => self.factor(),
            Level::Factor => self.unary(),
        }
    }

    /// A chain of operators of one level, grouped to the left.
    #[verifier::loop_isolation(false)]
    fn binary(&mut self, level: Level) -> (r: Result<Expr, LoxError>)
        requires
            old(self).wf(),
        ensures
            final(self).moved_to(
                old(self),
                grammar::binary(old(self).tokens(), old(self).state(), level).state,
            ),
            expr_result(r, grammar::binary(old(self).tokens(), old(self).state(), level).value),
            r.is_ok() ==> final(self).moved_on(old(self)),
        decreases old(self).pending(), exec_rank(level),
    {
        let ghost ts = self.tokens();
        let ghost goal = grammar::binary(ts, self.state(), level);
        let mut expr = self.operand(level)?;
        while !self.is_at_end() && level_includes(level, self.peek().token_type)
            invariant
                self.wf(),
                self.tokens == old(self).tokens,
                self.current > old(self).current,
                goal == grammar::binary_rest(ts, self.state(), level, expr@),
            decreases self.pending(),
        {
            let operator = self.advance().clone();
            let right = self.operand(level)?;
            expr = if level == Level::Or || level == Level::And {
                Expr::Logical { left: Box::new(expr), operator, right: Box::new(right) }
            } else {
                Expr::Binary { left: Box::new(expr), operator, right: Box::new(right) }
            };
        }
        Ok(expr)
    }

    fn unary(&mut self) -> (r: Result<Expr, LoxError>)
        requires
            old(self).wf(),
        ensures
            final(self).moved_to(
                old(self),
                grammar::unary(old(self).tokens(), old(self).state()).state,
            ),
            expr_result(r, grammar::unary(old(self).tokens(), old(self).state()).value),
            r.is_ok() ==> final(self).moved_on(old(self)),
        decreases old(self).pending(), 10nat,
    {
        if self.check(TokenType::BANG) || self.check(TokenType::MINUS) {
            let operator = self.advance().clone();
            let right = self.unary()?;
            return Ok(Expr::Unary { operator, right: Box::new(right) });
        }
        self.call()
    }

    #[verifier::loop_isolation(false)]
    fn call(&mut self) -> (r: Result<Expr, LoxError>)
        requires
            old(self).wf(),
        ensures
            final(self).moved_to(
                old(self),
                grammar::call(old(self).tokens(), old(self).state()).state,
            ),
            expr_result(r, grammar::call(old(self).tokens(), old(self).state()).value),
            r.is_ok() ==> final(self).moved_on(old(self)),
        decreases old(self).pending(), 9nat,
    {
        let ghost ts = self.tokens();
        let ghost goal = grammar::call(ts, self.state());
        let mut expr = self.primary()?;
        while self.check(TokenType::LEFT_PAREN)
            invariant
                self.wf(),
                self.tokens == old(self).tokens,
                self.current > old(self).current,
                goal == grammar::call_rest(ts, self.state(), expr@),
            decreases self.pending(),
        {
            self.advance();
            expr = self.finish_call(expr)?;
        }
        Ok(expr)
    }

    fn finish_call(&mut self, callee: Expr) -> (r: Result<Expr, LoxError>)
        requires
            old(self).wf(),
        ensures
            final(self).moved_to(
                old(self),
                grammar::finish_call(old(self).tokens(), old(self).state(), callee@).state,
            ),
            expr_result(
                r,
                grammar::finish_call(old(self).tokens(), old(self).state(), callee@).value,
            ),
            r.is_ok() ==> final(self).moved_on(old(self)),
        decreases old(self).pending(), 50nat,
    {
        let arguments = if self.check(TokenType::RIGHT_PAREN) {
            let none: Vec<Expr> = Vec::new();
            assert(exprs_view(none@) =~= Seq::<ExprView>::empty());
            none
        } else {
            self.arguments()?
        };
        let paren = self.consume(TokenType::RIGHT_PAREN, "Expected ')' after arguments.")?;
        let made = Expr::Call { callee: Box::new(callee), paren, arguments };
        proof {
            assert(made@->Call_arguments =~= exprs_view(arguments@));
        }
        Ok(made)
    }

    /// The arguments of a call, up to the closing parenthesis.
    #[verifier::loop_isolation(false)]
    fn arguments(&mut self) -> (r: Result<Vec<Expr>, LoxError>)
        requires
            old(self).wf(),
        ensures
            final(self).moved_to(
                old(self),
                grammar::arguments(old(self).tokens(), old(self).state(), Seq::empty()).state,
            ),
            match r {
                Ok(v) => grammar::arguments(
                    old(self).tokens(),
                    old(self).state(),
                    Seq::empty(),
                ).value == Some(exprs_view(v@)),
                Err(e) => e@ == LoxErrorView::Parse && grammar::arguments(
                    old(self).tokens(),
                    old(self).state(),
                    Seq::empty(),
                ).value.is_none(),
            },
        decreases old(self).pending(), 49nat,
    {
        let ghost ts = self.tokens();
        let ghost goal = grammar::arguments(ts, self.state(), Seq::empty());
        let mut arguments: Vec<Expr> = Vec::new();
        let mut more = true;
        assert(exprs_view(arguments@) =~= Seq::<ExprView>::empty());
        while more
            invariant
                self.wf(),
                self.tokens == old(self).tokens,
                self.current >= old(self).current,
                goal == if more {
                    grammar::arguments(ts, self.state(), exprs_view(arguments@))
                } else {
                    ok(exprs_view(arguments@), self.state())
                },
            decreases self.pending() + if more { 1nat } else { 0nat },
        {
            if arguments.len() >= MAX_ARITY {
                self.error_here("Can't have mroe than 255 arguments");
            }
            let argument = self.expression()?;
            proof {
                assert(exprs_view(arguments@.push(argument)) =~= exprs_view(arguments@).push(
                    argument@,
                ));
            }
            arguments.push(argument);
            more = self.match_token(TokenType::COMMA);
        }
        Ok(arguments)
    }

    fn primary(&mut self) -> (r: Result<Expr, LoxError>)
        requires
            old(self).wf(),
        ensures
            final(self).moved_to(
                old(self),
                grammar::primary(old(self).tokens(), old(self).state()).state,
            ),
            expr_result(r, grammar::primary(old(self).tokens(), old(self).state()).value),
            r.is_ok() ==> final(self).moved_on(old(self)),
        decreases old(self).pending(), 7nat,
    {
        let kind = self.peek().token_type;
        let expr = match kind {
            TokenType::FALSE => Expr::Literal { value: Literal::Boolean(false) },
            TokenType::TRUE => Expr::Literal { value: Literal::Boolean(true) },
            TokenType::NONE => Expr::Literal { value: Literal::Nil },
            TokenType::STRING => Expr::Literal { value: self.peek().literal.clone() },
            TokenType::NUMBER => Expr::Literal { value: self.peek().literal.clone() },
            TokenType::IDENTIFIER => Expr::Variable { name: self.peek().clone() },
            TokenType::LEFT_PAREN => {
                self.advance();
                let inner = self.expression()?;
                self.consume(TokenType::RIGHT_PAREN, "Expected ')' after expression.")?;
                return Ok(Expr::Grouping { expression: Box::new(inner) });
            },
            _ => {
                return Err(self.error_here("Expected Expression."));
            },
        };
        self.advance();
        Ok(expr)
    }

    fn check(&self, token_type: TokenType) -> (r: bool)
        requires
            self.wf(),
        ensures
            r == check(self.tokens(), self.state(), token_type),
    {
        if self.is_at_end() {
            return false;
        }
        self.peek().token_type == token_type
    }

    /// Takes the next token if it is of the given kind.
    fn match_token(&mut self, token_type: TokenType) -> (r: bool)
        requires
            old(self).wf(),
        ensures
            r == check(old(self).tokens(), old(self).state(), token_type),
            final(self).moved_to(
                old(self),
                if r {
                    advanced(old(self).tokens(), old(self).state())
                } else {
                    old(self).state()
                },
            ),
            r ==> final(self).moved_on(old(self)),
    {
        if self.check(token_type) {
            self.advance();
            true
        } else {
            false
        }
    }

    fn advance(&mut self) -> (r: &Token)
        requires
            old(self).wf(),
        ensures
            final(self).moved_to(old(self), advanced(old(self).tokens(), old(self).state())),
            !at_end(old(self).tokens(), old(self).state()) ==> final(self).moved_on(old(self))
                && r@ == old(self).tokens()[old(self).state().current],
    {
        if !self.is_at_end() {
            let _ = self.tokens.len();
            self.current += 1;
            &self.tokens[self.current - 1]
        } else {
            &self.tokens[self.current]
        }
    }

    fn is_at_end(&self) -> (r: bool)
        requires
            self.wf(),
        ensures
            r == at_end(self.tokens(), self.state()),
    {
        self.peek().token_type == TokenType::EOF
    }

    fn peek(&self) -> (r: &Token)
        requires
            self.wf(),
        ensures
            r@ == self.tokens()[self.state().current],
            *r == self.tokens@[self.current as int],
    {
        &self.tokens[self.current]
    }

    fn previous(&self) -> (r: &Token)
        requires
            self.wf(),
            self.state().current >= 1,
        ensures
            r@ == self.tokens()[self.state().current - 1],
    {
        &self.tokens[self.current - 1]
    }

    fn consume(&mut self, token_type: TokenType, message: &str) -> (r: Result<Token, LoxError>)
        requires
            old(self).wf(),
        ensures
            final(self).moved_to(
                old(self),
                consume(old(self).tokens(), old(self).state(), token_type, message@).state,
            ),
            match r {
                Ok(t) => consume(old(self).tokens(), old(self).state(), token_type, message@).value
                    == Some(t@),
                Err(e) => e@ == LoxErrorView::Parse && consume(
                    old(self).tokens(),
                    old(self).state(),
                    token_type,
                    message@,
                ).value.is_none(),
            },
            r.is_ok() ==> final(self).moved_on(old(self)),
    {
        if self.check(token_type) {
            Ok(self.advance().clone())
        } else {
            Err(self.error_here(message))
        }
    }

    /// Reports a syntax error at the given token.
    pub fn error(&mut self, token: &Token, message: &str) -> (r: LoxError)
        ensures
            r@ == LoxErrorView::Parse,
            final(self).tokens() == old(self).tokens(),
            final(self).state() == reported(old(self).state(), token@, message@),
            old(self).wf() ==> final(self).wf(),
            old(self).wf() ==> final(self).moved_to(
                old(self),
                reported(old(self).state(), token@, message@),
            ),
    {
        let d = report_parse_error(token, message);
        proof {
            assert(diagnostics_view(self.diagnostics@.push(d)) =~= diagnostics_view(
                self.diagnostics@,
            ).push(d@));
        }
        self.diagnostics.push(d);
        LoxError::Parse
    }

    /// Reports a syntax error at the next token.
    fn error_here(&mut self, message: &str) -> (r: LoxError)
        requires
            old(self).wf(),
        ensures
            r@ == LoxErrorView::Parse,
            final(self).moved_to(
                old(self),
                reported(
                    old(self).state(),
                    old(self).tokens()[old(self).state().current],
                    message@,
                ),
            ),
    {
        let token = self.peek().clone();
        self.error(&token, message)
    }
}

} // verus!

//! The grammar, as functions from a token sequence and a position to the
//! tree that the parser builds there, the position it reaches and the
//! diagnostics it has reported.
//!
//! The rules refer to each other. They are well defined because each
//! reference either has fewer tokens left or is to a rule of lower rank: the
//! number after the tokens left in each `decreases` clause. Where a rule goes
//! on after another has run, it goes on from [`ahead`] of where it started;
//! no rule ever moves backwards, so this changes nothing.
use vstd::prelude::*;
use crate::ast_tools::{ExprView, StmtView};
use crate::error::{parse_error_at, DiagnosticView};
use crate::token::{LiteralView, TokenType, TokenView};

verus! {

/// What the parser has done with the tokens so far: the index of the next
/// token and the diagnostics reported.
pub struct ParserState {
    pub current: int,
    pub diagnostics: Seq<DiagnosticView>,
}

/// The outcome of one grammar rule: the tree, or nothing if the rule failed,
/// and the state afterwards.
pub struct Parsed<T> {
    pub value: Option<T>,
    pub state: ParserState,
}

/// The levels of binary operators, loosest first.
#[derive(Clone, Copy, PartialEq, Eq, Structural)]
pub enum Level {
    Or,
    And,
    Equality,
    Comparison,
    Term,
    Factor,
}

/// The largest number of arguments or parameters that is accepted without a
/// diagnostic.
pub const MAX_ARITY: usize = 255;

/// The rule gave `value` and left the parser in `state`.
pub open spec fn ok<T>(value: T, state: ParserState) -> Parsed<T> {
    Parsed { value: Some(value), state }
}

/// The rule failed and left the parser in `state`.
pub open spec fn fail<T>(state: ParserState) -> Parsed<T> {
    Parsed { value: None, state }
}

/// The state `s`, moved forward to `least` if it lies before it.
pub open spec fn ahead(s: ParserState, least: int) -> ParserState {
    if s.current >= least {
        s
    } else {
        ParserState { current: least, diagnostics: s.diagnostics }
    }
}

/// The number of tokens from `current` to the end of the sequence.
pub open spec fn left(ts: Seq<TokenView>, current: int) -> nat {
    if current <= ts.len() {
        (ts.len() - current) as nat
    } else {
        0
    }
}

/// The parser stands on the end-of-file token, or beyond the tokens.
pub open spec fn at_end(ts: Seq<TokenView>, st: ParserState) -> bool {
    !(0 <= st.current < ts.len()) || ts[st.current].token_type == TokenType::EOF
}

/// The next token is of the given kind.
pub open spec fn check(ts: Seq<TokenView>, st: ParserState, kind: TokenType) -> bool {
    !at_end(ts, st) && ts[st.current].token_type == kind
}

/// The state after the next token, which the end-of-file token never leaves.
pub open spec fn advanced(ts: Seq<TokenView>, st: ParserState) -> ParserState {
    if at_end(ts, st) {
        st
    } else {
        ParserState { current: st.current + 1, diagnostics: st.diagnostics }
    }
}

/// The state after a syntax error at `token` has been reported.
pub open spec fn reported(st: ParserState, token: TokenView, message: Seq<char>) -> ParserState {
    ParserState {
        current: st.current,
        diagnostics: st.diagnostics.push(parse_error_at(token, message)),
    }
}

/// Takes the next token if it is of the given kind; otherwise reports the
/// message at it and fails.
pub open spec fn consume(
    ts: Seq<TokenView>,
    st: ParserState,
    kind: TokenType,
    message: Seq<char>,
) -> Parsed<TokenView> {
    if check(ts, st, kind) {
        ok(ts[st.current], advanced(ts, st))
    } else {
        fail(reported(st, ts[st.current], message))
    }
}

/// Whether a token of this kind is an operator of the level.
pub open spec fn level_has(level: Level, kind: TokenType) -> bool {
    match level {
        Level::Or => kind == TokenType::OR,
        Level::And => kind == TokenType::AND,
        Level::Equality => kind == TokenType::BANG_EQUAL || kind == TokenType::EQUAL_EQUAL,
        Level::Comparison => kind == TokenType::GREATER || kind == TokenType::GREATER_EQUAL || kind
            == TokenType::LESS || kind == TokenType::LESS_EQUAL,
        Level::Term => kind == TokenType::PLUS || kind == TokenType::MINUS,
        Level::Factor => kind == TokenType::SLASH || kind == TokenType::STAR,
    }
}

/// The level that binds one step tighter; the tightest has none.
pub open spec fn tighter(level: Level) -> Option<Level> {
    match level {
        Level::Or => Some(Level::And),
        Level::And => Some(Level::Equality),
        Level::Equality => Some(Level::Comparison),
        Level::Comparison => Some(Level::Term),
        Level::Term => Some(Level::Factor),
        Level::Factor => None,
    }
}

/// The rank of the rule of a level: lower for tighter levels.
pub open spec fn level_rank(level: Level) -> nat {
    match level {
        Level::Or => 30,
        Level::And => 27,
        Level::Equality => 24,
        Level::Comparison => 21,
        Level::Term => 18,
        Level::Factor => 15,
    }
}

/// The node that an operator of the level makes of its two operands.
pub open spec fn join(level: Level, left: ExprView, operator: TokenView, right: ExprView) -> ExprView {
    if level == Level::Or || level == Level::And {
        ExprView::Logical { left: Box::new(left), operator, right: Box::new(right) }
    } else {
        ExprView::Binary { left: Box::new(left), operator, right: Box::new(right) }
    }
}

/// `expression → assignment`
pub open spec fn expression(ts: Seq<TokenView>, st: ParserState) -> Parsed<ExprView>
    decreases left(ts, st.current), 40nat,
{
    assignment(ts, st)
}

/// `assignment → IDENT "=" assignment | logic_or`
pub open spec fn assignment(ts: Seq<TokenView>, st: ParserState) -> Parsed<ExprView>
    decreases left(ts, st.current), 39nat,
{
    let target = binary(ts, st, Level::Or);
    let after = ahead(target.state, st.current);
    if target.value.is_none() {
        target
    } else if check(ts, after, TokenType::EQUAL) {
        let equals = ts[after.current];
        let value = assignment(ts, advanced(ts, after));
        if value.value.is_none() {
            value
        } else {
            match target.value.unwrap() {
                ExprView::Variable { name } => ok(
                    ExprView::Assign { name, value: Box::new(value.value.unwrap()) },
                    value.state,
                ),
                _ => fail(reported(value.state, equals, "Invalid assignment target."@)),
            }
        }
    } else {
        target
    }
}

/// The operand of an operator of the level: an expression of the next
/// tighter level, or a unary expression below the tightest.
pub open spec fn operand(ts: Seq<TokenView>, st: ParserState, level: Level) -> Parsed<ExprView>
    decreases left(ts, st.current), level_rank(level) - 1,
{
    match tighter(level) {
        Some(next) => binary(ts, st, next),
        None => unary(ts, st),
    }
}

/// `level → operand ( operator operand )*`, grouping to the left.
pub open spec fn binary(ts: Seq<TokenView>, st: ParserState, level: Level) -> Parsed<ExprView>
    decreases left(ts, st.current), level_rank(level),
{
    let first = operand(ts, st, level);
    if first.value.is_none() {
        first
    } else {
        binary_rest(ts, ahead(first.state, st.current), level, first.value.unwrap())
    }
}

/// The operators of the level that follow `left`, each with its operand.
pub open spec fn binary_rest(
    ts: Seq<TokenView>,
    st: ParserState,
    level: Level,
    left_side: ExprView,
) -> Parsed<ExprView>
    decreases left(ts, st.current), level_rank(level) - 2,
{
    if !at_end(ts, st) && level_has(level, ts[st.current].token_type) {
        let operator = ts[st.current];
        let right = operand(ts, advanced(ts, st), level);
        if right.value.is_none() {
            right
        } else {
            binary_rest(
                ts,
                ahead(right.state, st.current + 1),
                level,
                join(level, left_side, operator, right.value.unwrap()),
            )
        }
    } else {
        ok(left_side, st)
    }
}

/// `unary → ("!"|"-") unary | call`
pub open spec fn unary(ts: Seq<TokenView>, st: ParserState) -> Parsed<ExprView>
    decreases left(ts, st.current), 10nat,
{
    if check(ts, st, TokenType::BANG) || check(ts, st, TokenType::MINUS) {
        let operator = ts[st.current];
        let right = unary(ts, advanced(ts, st));
        if right.value.is_none() {
            right
        } else {
            ok(ExprView::Unary { operator, right: Box::new(right.value.unwrap()) }, right.state)
        }
    } else {
        call(ts, st)
    }
}

/// `call → primary ( "(" args? ")" )*`
pub open spec fn call(ts: Seq<TokenView>, st: ParserState) -> Parsed<ExprView>
    decreases left(ts, st.current), 9nat,
{
    let callee = primary(ts, st);
    if callee.value.is_none() {
        callee
    } else {
        call_rest(ts, ahead(callee.state, st.current), callee.value.unwrap())
    }
}

/// The argument lists that follow `callee`, each wrapping what precedes it.
pub open spec fn call_rest(ts: Seq<TokenView>, st: ParserState, callee: ExprView) -> Parsed<
    ExprView,
>
    decreases left(ts, st.current), 8nat,
{
    if check(ts, st, TokenType::LEFT_PAREN) {
        let made = finish_call(ts, advanced(ts, st), callee);
        if made.value.is_none() {
            made
        } else {
            call_rest(ts, ahead(made.state, st.current + 1), made.value.unwrap())
        }
    } else {
        ok(callee, st)
    }
}

/// `args? ")"`, after the opening parenthesis of a call.
pub open spec fn finish_call(ts: Seq<TokenView>, st: ParserState, callee: ExprView) -> Parsed<
    ExprView,
>
    decreases left(ts, st.current), 50nat,
{
    let args = if check(ts, st, TokenType::RIGHT_PAREN) {
        ok(Seq::<ExprView>::empty(), st)
    } else {
        arguments(ts, st, Seq::empty())
    };
    if args.value.is_none() {
        fail(args.state)
    } else {
        let paren = consume(
            ts,
            args.state,
            TokenType::RIGHT_PAREN,
            "Expected ')' after arguments."@,
        );
        if paren.value.is_none() {
            fail(paren.state)
        } else {
            ok(
                ExprView::Call {
                    callee: Box::new(callee),
                    paren: paren.value.unwrap(),
                    arguments: args.value.unwrap(),
                },
                paren.state,
            )
        }
    }
}

/// `expression ( "," expression )*`, added to the arguments in `done`. More
/// than 255 are reported and still taken.
pub open spec fn arguments(ts: Seq<TokenView>, st: ParserState, done: Seq<ExprView>) -> Parsed<
    Seq<ExprView>,
>
    decreases left(ts, st.current), 49nat,
{
    let noted = if done.len() >= MAX_ARITY {
        reported(st, ts[st.current], "Can't have mroe than 255 arguments"@)
    } else {
        st
    };
    let item = expression(ts, noted);
    if item.value.is_none() {
        fail(item.state)
    } else {
        let after = ahead(item.state, st.current);
        let all = done.push(item.value.unwrap());
        if check(ts, after, TokenType::COMMA) {
            arguments(ts, advanced(ts, after), all)
        } else {
            ok(all, after)
        }
    }
}

/// `primary → NUMBER | STRING | "true" | "false" | "nil" | IDENT | "(" expression ")"`
pub open spec fn primary(ts: Seq<TokenView>, st: ParserState) -> Parsed<ExprView>
    decreases left(ts, st.current), 7nat,
{
    let token = ts[st.current];
    let next = advanced(ts, st);
    if check(ts, st, TokenType::FALSE) {
        ok(ExprView::Literal { value: LiteralView::Boolean(false) }, next)
    } else if check(ts, st, TokenType::TRUE) {
        ok(ExprView::Literal { value: LiteralView::Boolean(true) }, next)
    } else if check(ts, st, TokenType::NONE) {
        ok(ExprView::Literal { value: LiteralView::Nil }, next)
    } else if check(ts, st, TokenType::STRING) || check(ts, st, TokenType::NUMBER) {
        ok(ExprView::Literal { value: token.literal }, next)
    } else if check(ts, st, TokenType::IDENTIFIER) {
        ok(ExprView::Variable { name: token }, next)
    } else if check(ts, st, TokenType::LEFT_PAREN) {
        let inner = expression(ts, next);
        if inner.value.is_none() {
            inner
        } else {
            let close = consume(
                ts,
                inner.state,
                TokenType::RIGHT_PAREN,
                "Expected ')' after expression."@,
            );
            if close.value.is_none() {
                fail(close.state)
            } else {
                ok(ExprView::Grouping { expression: Box::new(inner.value.unwrap()) }, close.state)
            }
        }
    } else {
        fail(reported(st, token, "Expected Expression."@))
    }
}

/// Whether a statement may start with a token of this kind: the places at
/// which the parser resumes after a syntax error.
pub open spec fn starts_statement(kind: TokenType) -> bool {
    kind == TokenType::CLASS || kind == TokenType::FUN || kind == TokenType::VAR || kind
        == TokenType::FOR || kind == TokenType::IF || kind == TokenType::WHILE || kind
        == TokenType::PRINT || kind == TokenType::RETURN
}

/// Skips tokens until the one before is a semicolon or the next one may
/// start a statement.
pub open spec fn skip_to_boundary(ts: Seq<TokenView>, st: ParserState) -> ParserState
    decreases left(ts, st.current),
{
    if at_end(ts, st) {
        st
    } else if st.current >= 1 && ts[st.current - 1].token_type == TokenType::SEMICOLON {
        st
    } else if starts_statement(ts[st.current].token_type) {
        st
    } else {
        skip_to_boundary(ts, advanced(ts, st))
    }
}

/// Where the parser resumes after a declaration has failed at `st`.
pub open spec fn synchronize(ts: Seq<TokenView>, st: ParserState) -> ParserState {
    skip_to_boundary(ts, advanced(ts, st))
}

/// The loop that a `for` statement stands for.
pub open spec fn desugar_for(
    initializer: Option<StmtView>,
    condition: Option<ExprView>,
    increment: Option<ExprView>,
    body: StmtView,
) -> StmtView {
    let stepped = match increment {
        Some(incr) => StmtView::Block {
            statements: seq![body, StmtView::Expression { expression: incr }],
        },
        None => body,
    };
    let looped = StmtView::While {
        condition: match condition {
            Some(c) => c,
            None => ExprView::Literal { value: LiteralView::Boolean(true) },
        },
        body: Box::new(stepped),
    };
    match initializer {
        Some(init) => StmtView::Block { statements: seq![init, looped] },
        None => looped,
    }
}

/// An expression if `present`, nothing otherwise.
pub open spec fn optional_expression(ts: Seq<TokenView>, st: ParserState, present: bool) -> Parsed<
    Option<ExprView>,
>
    decreases left(ts, st.current), 41nat,
{
    if present {
        let e = expression(ts, st);
        if e.value.is_none() {
            fail(e.state)
        } else {
            ok(e.value, e.state)
        }
    } else {
        ok(None, st)
    }
}

/// `declaration → varDecl | funDecl | statement`. A declaration that fails
/// yields the placeholder statement and resumes at the next boundary.
pub open spec fn declaration(ts: Seq<TokenView>, st: ParserState) -> Parsed<StmtView>
    decreases left(ts, st.current), 100nat,
{
    let made = if check(ts, st, TokenType::VAR) {
        var_declaration(ts, advanced(ts, st))
    } else if check(ts, st, TokenType::FUN) {
        function(ts, advanced(ts, st))
    } else {
        statement(ts, st)
    };
    if made.value.is_none() {
        ok(StmtView::NONE, synchronize(ts, made.state))
    } else {
        made
    }
}

/// `IDENT ( "=" expression )? ";"`, after `var`.
pub open spec fn var_declaration(ts: Seq<TokenView>, st: ParserState) -> Parsed<StmtView>
    decreases left(ts, st.current), 200nat,
{
    let name = consume(ts, st, TokenType::IDENTIFIER, "Expected variable name."@);
    if name.value.is_none() {
        fail(name.state)
    } else {
        let given = check(ts, name.state, TokenType::EQUAL);
        let initializer = optional_expression(
            ts,
            ahead(if given { advanced(ts, name.state) } else { name.state }, st.current),
            given,
        );
        if initializer.value.is_none() {
            fail(initializer.state)
        } else {
            let semicolon = consume(
                ts,
                initializer.state,
                TokenType::SEMICOLON,
                "Expected ';' after variable name."@,
            );
            if semicolon.value.is_none() {
                fail(semicolon.state)
            } else {
                ok(
                    StmtView::Var {
                        name: name.value.unwrap(),
                        initializer: initializer.value.unwrap(),
                    },
                    semicolon.state,
                )
            }
        }
    }
}

/// `IDENT ( "," IDENT )*`, added to the parameters in `done`. More than 255
/// are reported and still taken.
pub open spec fn parameters(ts: Seq<TokenView>, st: ParserState, done: Seq<TokenView>) -> Parsed<
    Seq<TokenView>,
>
    decreases left(ts, st.current),
{
    let noted = if done.len() >= MAX_ARITY {
        reported(st, ts[st.current], "Cannot have more than 255 params."@)
    } else {
        st
    };
    let name = consume(ts, noted, TokenType::IDENTIFIER, "Expected paramater."@);
    if name.value.is_none() {
        fail(name.state)
    } else {
        let all = done.push(name.value.unwrap());
        if check(ts, name.state, TokenType::COMMA) {
            parameters(ts, advanced(ts, name.state), all)
        } else {
            ok(all, name.state)
        }
    }
}

/// `IDENT "(" params? ")" block`, after `fun`.
pub open spec fn function(ts: Seq<TokenView>, st: ParserState) -> Parsed<StmtView>
    decreases left(ts, st.current), 210nat,
{
    let name = consume(ts, st, TokenType::IDENTIFIER, "Expect function name."@);
    if name.value.is_none() {
        fail(name.state)
    } else {
        let open = consume(
            ts,
            name.state,
            TokenType::LEFT_PAREN,
            "Expected '(' after functoin name."@,
        );
        if open.value.is_none() {
            fail(open.state)
        } else {
            let params = if check(ts, open.state, TokenType::RIGHT_PAREN) {
                ok(Seq::<TokenView>::empty(), open.state)
            } else {
                parameters(ts, open.state, Seq::empty())
            };
            if params.value.is_none() {
                fail(params.state)
            } else {
                let close = consume(
                    ts,
                    params.state,
                    TokenType::RIGHT_PAREN,
                    "Expected ')' after paramaters"@,
                );
                if close.value.is_none() {
                    fail(close.state)
                } else {
                    let brace = consume(
                        ts,
                        close.state,
                        TokenType::LEFT_BRACE,
                        "Expected '{' after function declaration."@,
                    );
                    if brace.value.is_none() {
                        fail(brace.state)
                    } else {
                        let body = block(ts, ahead(brace.state, st.current));
                        if body.value.is_none() {
                            fail(body.state)
                        } else {
                            ok(
                                StmtView::Function {
                                    name: name.value.unwrap(),
                                    paramaters: params.value.unwrap(),
                                    body: body.value.unwrap(),
                                },
                                body.state,
                            )
                        }
                    }
                }
            }
        }
    }
}

/// `declaration* "}"`, after the opening brace.
pub open spec fn block(ts: Seq<TokenView>, st: ParserState) -> Parsed<Seq<StmtView>>
    decreases left(ts, st.current), 160nat,
{
    let items = block_items(ts, st, Seq::empty());
    let close = consume(ts, items.state, TokenType::RIGHT_BRACE, "Expected '}' after blcok."@);
    if close.value.is_none() {
        fail(close.state)
    } else {
        ok(items.value.unwrap(), close.state)
    }
}

/// The declarations up to the closing brace or the end of the input, added
/// to those in `done`.
pub open spec fn block_items(ts: Seq<TokenView>, st: ParserState, done: Seq<StmtView>) -> Parsed<
    Seq<StmtView>,
>
    decreases left(ts, st.current), 150nat,
{
    if !check(ts, st, TokenType::RIGHT_BRACE) && !at_end(ts, st) {
        let item = declaration(ts, st);
        block_items(ts, ahead(item.state, st.current + 1), done.push(item.value.unwrap()))
    } else {
        ok(done, st)
    }
}

/// A statement that is a keyword and a semicolon.
pub open spec fn keyword_statement(
    ts: Seq<TokenView>,
    st: ParserState,
    made: StmtView,
    message: Seq<char>,
) -> Parsed<StmtView> {
    let semicolon = consume(ts, st, TokenType::SEMICOLON, message);
    if semicolon.value.is_none() {
        fail(semicolon.state)
    } else {
        ok(made, semicolon.state)
    }
}

/// `statement → exprStmt | printStmt | block | ifStmt | whileStmt | forStmt
/// | returnStmt | "break" ";" | "continue" ";"`
pub open spec fn statement(ts: Seq<TokenView>, st: ParserState) -> Parsed<StmtView>
    decreases left(ts, st.current), 90nat,
{
    let next = advanced(ts, st);
    if check(ts, st, TokenType::BREAK) {
        keyword_statement(ts, next, StmtView::Break, "Expected ';' after break"@)
    } else if check(ts, st, TokenType::CONTINUE) {
        keyword_statement(ts, next, StmtView::Continue, "Expected ';' after continue."@)
    } else if check(ts, st, TokenType::IF) {
        if_statement(ts, next)
    } else if check(ts, st, TokenType::PRINT) {
        print_statement(ts, next)
    } else if check(ts, st, TokenType::RETURN) {
        return_statement(ts, next)
    } else if check(ts, st, TokenType::LEFT_BRACE) {
        let body = block(ts, next);
        if body.value.is_none() {
            fail(body.state)
        } else {
            ok(StmtView::Block { statements: body.value.unwrap() }, body.state)
        }
    } else if check(ts, st, TokenType::WHILE) {
        while_statement(ts, next)
    } else if check(ts, st, TokenType::FOR) {
        for_statement(ts, next)
    } else {
        expression_statement(ts, st)
    }
}

/// `"(" expression ")"`, with the messages of the statement it belongs to.
pub open spec fn condition(
    ts: Seq<TokenView>,
    st: ParserState,
    before: Seq<char>,
    after: Seq<char>,
) -> Parsed<ExprView>
    decreases left(ts, st.current), 42nat,
{
    let open = consume(ts, st, TokenType::LEFT_PAREN, before);
    if open.value.is_none() {
        fail(open.state)
    } else {
        let test = expression(ts, ahead(open.state, st.current));
        if test.value.is_none() {
            test
        } else {
            let close = consume(ts, test.state, TokenType::RIGHT_PAREN, after);
            if close.value.is_none() {
                fail(close.state)
            } else {
                ok(test.value.unwrap(), close.state)
            }
        }
    }
}

/// `"(" expression ")" statement ( "else" statement )?`, after `if`.
pub open spec fn if_statement(ts: Seq<TokenView>, st: ParserState) -> Parsed<StmtView>
    decreases left(ts, st.current), 200nat,
{
    let test = condition(ts, st, "Expected '(' after if."@, "Expected ')' after if condition."@);
    if test.value.is_none() {
        fail(test.state)
    } else {
        let then_branch = statement(ts, ahead(test.state, st.current));
        if then_branch.value.is_none() {
            then_branch
        } else {
            let after = ahead(then_branch.state, st.current);
            if check(ts, after, TokenType::ELSE) {
                let else_branch = statement(ts, advanced(ts, after));
                if else_branch.value.is_none() {
                    else_branch
                } else {
                    ok(
                        StmtView::If {
                            condition: test.value.unwrap(),
                            then_branch: Box::new(then_branch.value.unwrap()),
                            else_branch: Some(Box::new(else_branch.value.unwrap())),
                        },
                        else_branch.state,
                    )
                }
            } else {
                ok(
                    StmtView::If {
                        condition: test.value.unwrap(),
                        then_branch: Box::new(then_branch.value.unwrap()),
                        else_branch: None,
                    },
                    after,
                )
            }
        }
    }
}

/// `expression ";"`, after `print`.
pub open spec fn print_statement(ts: Seq<TokenView>, st: ParserState) -> Parsed<StmtView>
    decreases left(ts, st.current), 200nat,
{
    let value = expression(ts, st);
    if value.value.is_none() {
        fail(value.state)
    } else {
        keyword_statement(
            ts,
            value.state,
            StmtView::Print { expression: value.value.unwrap() },
            "Expected ';' after value."@,
        )
    }
}

/// `exprStmt → expression ";"`
pub open spec fn expression_statement(ts: Seq<TokenView>, st: ParserState) -> Parsed<StmtView>
    decreases left(ts, st.current), 80nat,
{
    let value = expression(ts, st);
    if value.value.is_none() {
        fail(value.state)
    } else {
        keyword_statement(
            ts,
            value.state,
            StmtView::Expression { expression: value.value.unwrap() },
            "Expected ';' after value."@,
        )
    }
}

/// `"(" expression ")" statement`, after `while`.
pub open spec fn while_statement(ts: Seq<TokenView>, st: ParserState) -> Parsed<StmtView>
    decreases left(ts, st.current), 200nat,
{
    let test = condition(ts, st, "Expect '(' after 'while'."@, "Expect ')' after condition."@);
    if test.value.is_none() {
        fail(test.state)
    } else {
        let body = statement(ts, ahead(test.state, st.current));
        if body.value.is_none() {
            body
        } else {
            ok(
                StmtView::While {
                    condition: test.value.unwrap(),
                    body: Box::new(body.value.unwrap()),
                },
                body.state,
            )
        }
    }
}

/// The first clause of a `for`: nothing but a semicolon, a variable
/// declaration, or an expression statement.
pub open spec fn for_initializer(ts: Seq<TokenView>, st: ParserState) -> Parsed<Option<StmtView>>
    decreases left(ts, st.current), 201nat,
{
    if check(ts, st, TokenType::SEMICOLON) {
        ok(None, advanced(ts, st))
    } else {
        let made = if check(ts, st, TokenType::VAR) {
            var_declaration(ts, advanced(ts, st))
        } else {
            expression_statement(ts, st)
        };
        if made.value.is_none() {
            fail(made.state)
        } else {
            ok(made.value, made.state)
        }
    }
}

/// `"(" ( varDecl | exprStmt | ";" ) expression? ";" expression? ")" statement`,
/// after `for`, as the loop it stands for.
pub open spec fn for_statement(ts: Seq<TokenView>, st: ParserState) -> Parsed<StmtView>
    decreases left(ts, st.current), 205nat,
{
    let open = consume(ts, st, TokenType::LEFT_PAREN, "Expect '(' after 'for'."@);
    if open.value.is_none() {
        fail(open.state)
    } else {
        let initializer = for_initializer(ts, ahead(open.state, st.current));
        if initializer.value.is_none() {
            fail(initializer.state)
        } else {
            let s1 = ahead(initializer.state, st.current);
            let test = optional_expression(ts, s1, !check(ts, s1, TokenType::SEMICOLON));
            if test.value.is_none() {
                fail(test.state)
            } else {
                let semicolon = consume(
                    ts,
                    test.state,
                    TokenType::SEMICOLON,
                    "Expected ';' after loop condition."@,
                );
                if semicolon.value.is_none() {
                    fail(semicolon.state)
                } else {
                    let s2 = ahead(semicolon.state, st.current);
                    let increment = optional_expression(
                        ts,
                        s2,
                        !check(ts, s2, TokenType::RIGHT_PAREN),
                    );
                    if increment.value.is_none() {
                        fail(increment.state)
                    } else {
                        let close = consume(
                            ts,
                            increment.state,
                            TokenType::RIGHT_PAREN,
                            "Expected ')' after for clauses."@,
                        );
                        if close.value.is_none() {
                            fail(close.state)
                        } else {
                            let body = statement(ts, ahead(close.state, st.current));
                            if body.value.is_none() {
                                body
                            } else {
                                ok(
                                    desugar_for(
                                        initializer.value.unwrap(),
                                        test.value.unwrap(),
                                        increment.value.unwrap(),
                                        body.value.unwrap(),
                                    ),
                                    body.state,
                                )
                            }
                        }
                    }
                }
            }
        }
    }
}

/// `expression? ";"`, after `return`.
pub open spec fn return_statement(ts: Seq<TokenView>, st: ParserState) -> Parsed<StmtView>
    decreases left(ts, st.current), 200nat,
{
    let keyword = ts[st.current - 1];
    let value = optional_expression(ts, st, !check(ts, st, TokenType::SEMICOLON));
    if value.value.is_none() {
        fail(value.state)
    } else {
        keyword_statement(
            ts,
            value.state,
            StmtView::Return { keyword, value: value.value.unwrap() },
            "Expect ';' after retrun."@,
        )
    }
}

/// `program → declaration* EOF`, added to the statements in `done`.
pub open spec fn program(ts: Seq<TokenView>, st: ParserState, done: Seq<StmtView>) -> Parsed<
    Seq<StmtView>,
>
    decreases left(ts, st.current), 300nat,
{
    if !at_end(ts, st) {
        let item = declaration(ts, st);
        program(ts, ahead(item.state, st.current + 1), done.push(item.value.unwrap()))
    } else {
        ok(done, st)
    }
}

/// The state of a parser that has not looked at any token.
pub open spec fn initial() -> ParserState {
    ParserState { current: 0, diagnostics: Seq::empty() }
}

/// The statements of a whole token sequence, or nothing if any syntax error
/// was reported.
#[verifier::opaque]
pub open spec fn parse_tokens(ts: Seq<TokenView>) -> Option<Seq<StmtView>> {
    let all = program(ts, initial(), Seq::empty());
    if all.state.diagnostics.len() == 0 {
        all.value
    } else {
        None
    }
}

/// The syntax errors of a whole token sequence, in the order in which the
/// parser finds them.
#[verifier::opaque]
pub open spec fn parse_report(ts: Seq<TokenView>) -> Seq<DiagnosticView> {
    program(ts, initial(), Seq::empty()).state.diagnostics
}

} // verus!

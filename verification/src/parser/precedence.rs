//! Precedence and grouping, proved of the grammar: of two infix operators in
//! a row the tighter one takes the operand between them, and two of the same
//! level group to the left.
use vstd::prelude::*;
use crate::ast_tools::ExprView;
use crate::error::DiagnosticView;
use crate::parser::grammar::{
    advanced,
    ahead,
    at_end,
    binary,
    binary_rest,
    call,
    call_rest,
    check,
    expression,
    join,
    level_has,
    ok,
    operand,
    primary,
    tighter,
    unary,
    Level,
    ParserState,
};
use crate::token::{LiteralView, TokenType, TokenView};

verus! {

/// The place of a level among the levels: 0 for the loosest.
pub open spec fn tightness(level: Level) -> nat {
    match level {
        Level::Or => 0,
        Level::And => 1,
        Level::Equality => 2,
        Level::Comparison => 3,
        Level::Term => 4,
        Level::Factor => 5,
    }
}

/// The level of which a token of this kind is an infix operator, if any.
pub open spec fn level_of(kind: TokenType) -> Option<Level> {
    if level_has(Level::Or, kind) {
        Some(Level::Or)
    } else if level_has(Level::And, kind) {
        Some(Level::And)
    } else if level_has(Level::Equality, kind) {
        Some(Level::Equality)
    } else if level_has(Level::Comparison, kind) {
        Some(Level::Comparison)
    } else if level_has(Level::Term, kind) {
        Some(Level::Term)
    } else if level_has(Level::Factor, kind) {
        Some(Level::Factor)
    } else {
        None
    }
}

/// A token of this kind is an expression by itself.
pub open spec fn is_atom(kind: TokenType) -> bool {
    kind == TokenType::NUMBER || kind == TokenType::STRING || kind == TokenType::TRUE || kind
        == TokenType::FALSE || kind == TokenType::NONE || kind == TokenType::IDENTIFIER
}

/// The expression that an atom is.
pub open spec fn atom(token: TokenView) -> ExprView {
    if token.token_type == TokenType::FALSE {
        ExprView::Literal { value: LiteralView::Boolean(false) }
    } else if token.token_type == TokenType::TRUE {
        ExprView::Literal { value: LiteralView::Boolean(true) }
    } else if token.token_type == TokenType::NONE {
        ExprView::Literal { value: LiteralView::Nil }
    } else if token.token_type == TokenType::IDENTIFIER {
        ExprView::Variable { name: token }
    } else {
        ExprView::Literal { value: token.literal }
    }
}

/// A token of this kind, after an operand, is left alone by every level from
/// `level` on: it opens no argument list and is no operator of those levels.
pub open spec fn stops(kind: TokenType, level: Level) -> bool {
    &&& kind != TokenType::LEFT_PAREN
    &&& match level_of(kind) {
        Some(own) => tightness(own) < tightness(level),
        None => true,
    }
}

/// A token of this kind ends an expression: it is no infix operator, opens
/// no argument list and is no `=`.
pub open spec fn ends(kind: TokenType) -> bool {
    kind != TokenType::LEFT_PAREN && kind != TokenType::EQUAL && level_of(kind).is_none()
}

/// The parser at the token `current`, having reported `diagnostics`.
pub open spec fn at(current: int, diagnostics: Seq<DiagnosticView>) -> ParserState {
    ParserState { current, diagnostics }
}

/// An atom that no argument list follows is a whole unary expression.
proof fn lemma_atom(ts: Seq<TokenView>, i: int, d: Seq<DiagnosticView>)
    requires
        0 <= i,
        i + 1 < ts.len(),
        is_atom(ts[i].token_type),
        ts[i + 1].token_type != TokenType::LEFT_PAREN,
    ensures
        unary(ts, at(i, d)) == ok(atom(ts[i]), at(i + 1, d)),
{
    let st = at(i, d);
    assert(!at_end(ts, st));
    assert(advanced(ts, st) == at(i + 1, d));
    assert(primary(ts, st) == ok(atom(ts[i]), at(i + 1, d)));
    assert(ahead(at(i + 1, d), i) == at(i + 1, d));
    assert(call_rest(ts, at(i + 1, d), atom(ts[i])) == ok(atom(ts[i]), at(i + 1, d)));
    assert(call(ts, st) == ok(atom(ts[i]), at(i + 1, d)));
}

/// At a token that is no operator of the level the chain of the level ends.
proof fn lemma_rest_ends(
    ts: Seq<TokenView>,
    i: int,
    d: Seq<DiagnosticView>,
    level: Level,
    left: ExprView,
)
    requires
        0 <= i < ts.len(),
        !level_has(level, ts[i].token_type),
    ensures
        binary_rest(ts, at(i, d), level, left) == ok(left, at(i, d)),
{
}

/// An atom followed by a token that stops the level is a whole expression of
/// the level.
proof fn lemma_atom_at_level(ts: Seq<TokenView>, i: int, d: Seq<DiagnosticView>, level: Level)
    requires
        0 <= i,
        i + 1 < ts.len(),
        is_atom(ts[i].token_type),
        stops(ts[i + 1].token_type, level),
    ensures
        binary(ts, at(i, d), level) == ok(atom(ts[i]), at(i + 1, d)),
        operand(ts, at(i, d), level) == ok(atom(ts[i]), at(i + 1, d)),
    decreases 6 - tightness(level),
{
    match tighter(level) {
        Some(next) => {
            lemma_atom_at_level(ts, i, d, next);
        },
        None => {
            lemma_atom(ts, i, d);
        },
    }
    assert(operand(ts, at(i, d), level) == ok(atom(ts[i]), at(i + 1, d)));
    assert(ahead(at(i + 1, d), i) == at(i + 1, d));
    lemma_rest_ends(ts, i + 1, d, level, atom(ts[i]));
}

/// The operand of a level is an atom if a token that stops the next tighter
/// level follows it.
proof fn lemma_atom_operand(ts: Seq<TokenView>, i: int, d: Seq<DiagnosticView>, level: Level)
    requires
        0 <= i,
        i + 1 < ts.len(),
        is_atom(ts[i].token_type),
        ts[i + 1].token_type != TokenType::LEFT_PAREN,
        match level_of(ts[i + 1].token_type) {
            Some(own) => tightness(own) <= tightness(level),
            None => true,
        },
    ensures
        operand(ts, at(i, d), level) == ok(atom(ts[i]), at(i + 1, d)),
{
    match tighter(level) {
        Some(next) => {
            lemma_atom_at_level(ts, i, d, next);
        },
        None => {
            lemma_atom(ts, i, d);
        },
    }
}

/// An operator of the level and the atom after it are taken into the chain.
proof fn lemma_rest_takes(
    ts: Seq<TokenView>,
    i: int,
    d: Seq<DiagnosticView>,
    level: Level,
    left: ExprView,
)
    requires
        0 <= i,
        i + 2 < ts.len(),
        level_of(ts[i].token_type) == Some(level),
        is_atom(ts[i + 1].token_type),
        ts[i + 2].token_type != TokenType::LEFT_PAREN,
        match level_of(ts[i + 2].token_type) {
            Some(own) => tightness(own) <= tightness(level),
            None => true,
        },
    ensures
        binary_rest(ts, at(i, d), level, left) == binary_rest(
            ts,
            at(i + 2, d),
            level,
            join(level, left, ts[i], atom(ts[i + 1])),
        ),
{
    let st = at(i, d);
    assert(level_has(level, ts[i].token_type));
    assert(!at_end(ts, st));
    assert(advanced(ts, st) == at(i + 1, d));
    lemma_atom_operand(ts, i + 1, d, level);
    assert(ahead(at(i + 2, d), i + 1) == at(i + 2, d));
}

/// Two atoms with one operator between them, followed by a token that stops
/// the level, are one node at every level that is not tighter than the
/// operator.
proof fn lemma_one_operator(
    ts: Seq<TokenView>,
    i: int,
    d: Seq<DiagnosticView>,
    level: Level,
    own: Level,
)
    requires
        0 <= i,
        i + 3 < ts.len(),
        is_atom(ts[i].token_type),
        level_of(ts[i + 1].token_type) == Some(own),
        is_atom(ts[i + 2].token_type),
        stops(ts[i + 3].token_type, level),
        tightness(level) <= tightness(own),
    ensures
        binary(ts, at(i, d), level) == ok(
            join(own, atom(ts[i]), ts[i + 1], atom(ts[i + 2])),
            at(i + 3, d),
        ),
    decreases tightness(own) - tightness(level),
{
    let node = join(own, atom(ts[i]), ts[i + 1], atom(ts[i + 2]));
    if level == own {
        lemma_atom_operand(ts, i, d, own);
        assert(ahead(at(i + 1, d), i) == at(i + 1, d));
        lemma_rest_takes(ts, i + 1, d, own, atom(ts[i]));
        lemma_rest_ends(ts, i + 3, d, own, node);
    } else {
        let next = tighter(level).unwrap();
        lemma_one_operator(ts, i, d, next, own);
        assert(operand(ts, at(i, d), level) == ok(node, at(i + 3, d)));
        assert(ahead(at(i + 3, d), i) == at(i + 3, d));
        lemma_rest_ends(ts, i + 3, d, level, node);
    }
}

/// The tree of `a o1 b o2 c` where `o2` binds tighter than `o1`.
pub open spec fn tighter_second(ts: Seq<TokenView>, i: int) -> ExprView {
    join(
        level_of(ts[i + 1].token_type).unwrap(),
        atom(ts[i]),
        ts[i + 1],
        join(level_of(ts[i + 3].token_type).unwrap(), atom(ts[i + 2]), ts[i + 3], atom(ts[i + 4])),
    )
}

/// The tree of `a o1 b o2 c` where `o2` binds no tighter than `o1`.
pub open spec fn tighter_first(ts: Seq<TokenView>, i: int) -> ExprView {
    join(
        level_of(ts[i + 3].token_type).unwrap(),
        join(level_of(ts[i + 1].token_type).unwrap(), atom(ts[i]), ts[i + 1], atom(ts[i + 2])),
        ts[i + 3],
        atom(ts[i + 4]),
    )
}

/// Three atoms with two operators between them: `a o1 b o2 c`.
pub open spec fn chain_of_two(ts: Seq<TokenView>, i: int) -> bool {
    &&& 0 <= i
    &&& i + 5 < ts.len()
    &&& is_atom(ts[i].token_type)
    &&& level_of(ts[i + 1].token_type).is_some()
    &&& is_atom(ts[i + 2].token_type)
    &&& level_of(ts[i + 3].token_type).is_some()
    &&& is_atom(ts[i + 4].token_type)
}

proof fn lemma_second_tighter(ts: Seq<TokenView>, i: int, d: Seq<DiagnosticView>, level: Level)
    requires
        chain_of_two(ts, i),
        stops(ts[i + 5].token_type, level),
        tightness(level) <= tightness(level_of(ts[i + 1].token_type).unwrap()),
        tightness(level_of(ts[i + 1].token_type).unwrap()) < tightness(
            level_of(ts[i + 3].token_type).unwrap(),
        ),
    ensures
        binary(ts, at(i, d), level) == ok(tighter_second(ts, i), at(i + 5, d)),
    decreases tightness(level_of(ts[i + 1].token_type).unwrap()) - tightness(level),
{
    let first = level_of(ts[i + 1].token_type).unwrap();
    let second = level_of(ts[i + 3].token_type).unwrap();
    let tree = tighter_second(ts, i);
    if level == first {
        lemma_atom_operand(ts, i, d, first);
        assert(ahead(at(i + 1, d), i) == at(i + 1, d));
        let next = tighter(first).unwrap();
        lemma_one_operator(ts, i + 2, d, next, second);
        assert(level_has(first, ts[i + 1].token_type));
        assert(!at_end(ts, at(i + 1, d)));
        assert(advanced(ts, at(i + 1, d)) == at(i + 2, d));
        assert(operand(ts, at(i + 2, d), first) == binary(ts, at(i + 2, d), next));
        assert(ahead(at(i + 5, d), i + 2) == at(i + 5, d));
        lemma_rest_ends(ts, i + 5, d, first, tree);
        assert(binary_rest(ts, at(i + 1, d), first, atom(ts[i])) == ok(tree, at(i + 5, d)));
    } else {
        let next = tighter(level).unwrap();
        lemma_second_tighter(ts, i, d, next);
        assert(operand(ts, at(i, d), level) == ok(tree, at(i + 5, d)));
        assert(ahead(at(i + 5, d), i) == at(i + 5, d));
        lemma_rest_ends(ts, i + 5, d, level, tree);
    }
}

proof fn lemma_first_tighter(ts: Seq<TokenView>, i: int, d: Seq<DiagnosticView>, level: Level)
    requires
        chain_of_two(ts, i),
        stops(ts[i + 5].token_type, level),
        tightness(level) <= tightness(level_of(ts[i + 3].token_type).unwrap()),
        tightness(level_of(ts[i + 3].token_type).unwrap()) <= tightness(
            level_of(ts[i + 1].token_type).unwrap(),
        ),
    ensures
        binary(ts, at(i, d), level) == ok(tighter_first(ts, i), at(i + 5, d)),
    decreases tightness(level_of(ts[i + 3].token_type).unwrap()) - tightness(level),
{
    let first = level_of(ts[i + 1].token_type).unwrap();
    let second = level_of(ts[i + 3].token_type).unwrap();
    let inner = join(first, atom(ts[i]), ts[i + 1], atom(ts[i + 2]));
    let tree = tighter_first(ts, i);
    if level == second {
        if first == second {
            lemma_atom_operand(ts, i, d, second);
            assert(ahead(at(i + 1, d), i) == at(i + 1, d));
            lemma_rest_takes(ts, i + 1, d, second, atom(ts[i]));
        } else {
            let next = tighter(second).unwrap();
            lemma_one_operator(ts, i, d, next, first);
            assert(operand(ts, at(i, d), second) == ok(inner, at(i + 3, d)));
            assert(ahead(at(i + 3, d), i) == at(i + 3, d));
        }
        lemma_rest_takes(ts, i + 3, d, second, inner);
        lemma_rest_ends(ts, i + 5, d, second, tree);
    } else {
        let next = tighter(level).unwrap();
        lemma_first_tighter(ts, i, d, next);
        assert(operand(ts, at(i, d), level) == ok(tree, at(i + 5, d)));
        assert(ahead(at(i + 5, d), i) == at(i + 5, d));
        lemma_rest_ends(ts, i + 5, d, level, tree);
    }
}

/// Of two infix operators in a row, the one that binds tighter takes the
/// operand between them; where neither binds tighter, the first one does.
/// For atoms `a`, `b`, `c`, operators `o1`, `o2` and a token after them that
/// ends the expression, `a o1 b o2 c` is `a o1 (b o2 c)` if `o2` is of a
/// tighter level than `o1`, and `(a o1 b) o2 c` otherwise.
pub proof fn lemma_precedence(ts: Seq<TokenView>, i: int, d: Seq<DiagnosticView>)
    requires
        chain_of_two(ts, i),
        ends(ts[i + 5].token_type),
    ensures
        expression(ts, at(i, d)) == ok(
            if tightness(level_of(ts[i + 1].token_type).unwrap()) < tightness(
                level_of(ts[i + 3].token_type).unwrap(),
            ) {
                tighter_second(ts, i)
            } else {
                tighter_first(ts, i)
            },
            at(i + 5, d),
        ),
{
    let first = level_of(ts[i + 1].token_type).unwrap();
    let second = level_of(ts[i + 3].token_type).unwrap();
    if tightness(first) < tightness(second) {
        lemma_second_tighter(ts, i, d, Level::Or);
    } else {
        lemma_first_tighter(ts, i, d, Level::Or);
    }
    assert(ahead(at(i + 5, d), i) == at(i + 5, d));
    assert(!check(ts, at(i + 5, d), TokenType::EQUAL));
}

} // verus!

//! What holds of every run of the machine.
use vstd::prelude::*;
use crate::ast_tools::{ExprView, StmtView};
use crate::environment::{lemma_resolve_within, nested, ScopeView};
use crate::error::LoxErrorView;
use crate::interpreter::machine::{
    bound_all,
    frame_ok,
    go,
    invoked,
    popped,
    settled,
    smaller,
    state_ok,
    step,
    ActionView,
    ControlView,
    FrameView,
    SignalView,
    State,
};
use crate::number::Number;
use crate::object::{binary_result, truthy, ObjectView, OutputView};
use crate::token::{LiteralView, TokenType, TokenView};

verus! {

/// The state after `count` steps, none of which is given an answer.
pub open spec fn steps(s: State, count: nat) -> State
    decreases count,
{
    if count == 0 {
        s
    } else {
        steps(step(s, None).0, (count - 1) as nat)
    }
}

/// What `print` shows of a literal that is not a number.
pub open spec fn literal_text(value: LiteralView) -> Seq<char> {
    match value {
        LiteralView::String(text) => text,
        LiteralView::Boolean(b) => if b {
            "true"@
        } else {
            "false"@
        },
        _ => "null"@,
    }
}

/// Printing a literal shows the literal: a string as its text, a boolean as
/// `true` or `false`, `nil` as `null`, and a number as the number that its
/// text was answered with.
pub proof fn lemma_literal_is_printed(s: State, value: LiteralView, answer: Number)
    requires
        s.control == ControlView::Evaluate(ExprView::Literal { value }),
        s.stack.len() > 0,
        s.stack.last() == FrameView::Print,
    ensures
        match value {
            LiteralView::Number(text) => {
                let asked = step(s, None);
                let answered = step(asked.0, Some(answer));
                let shown = step(answered.0, None);
                &&& asked.1 == ActionView::Parse(text)
                &&& answered.1 == ActionView::Continue
                &&& shown.1 == ActionView::Print(OutputView::Number(answer))
            },
            _ => {
                let evaluated = step(s, None);
                let shown = step(evaluated.0, None);
                &&& evaluated.1 == ActionView::Continue
                &&& shown.1 == ActionView::Print(OutputView::Text(literal_text(value)))
            },
        },
{
    match value {
        LiteralView::Number(text) => {
            let asked = step(s, None);
            let answered = step(asked.0, Some(answer));
            assert(answered.0.stack == s.stack);
            assert(answered.0.control == ControlView::Value(ObjectView::Number(answer)));
        },
        _ => {
            let evaluated = step(s, None);
            assert(evaluated.0.stack == s.stack);
        },
    }
}

/// Outside a loop `break` and `continue` do nothing: the statement ends like
/// any other and nothing else changes.
pub proof fn lemma_jump_outside_loop(s: State, answer: Option<Number>)
    requires
        s.control == ControlView::Execute(StmtView::Break) || s.control == ControlView::Execute(
            StmtView::Continue,
        ),
        !s.environment[s.current as int].is_enclosed_in_loop,
    ensures
        step(s, answer) == go(s, ControlView::Completed),
{
}

/// Inside a loop `break` and `continue` raise their signals.
pub proof fn lemma_jump_inside_loop(s: State, answer: Option<Number>)
    requires
        s.environment[s.current as int].is_enclosed_in_loop,
    ensures
        s.control == ControlView::Execute(StmtView::Break) ==> step(s, answer) == go(
            s,
            ControlView::Unwind(SignalView::Break),
        ),
        s.control == ControlView::Execute(StmtView::Continue) ==> step(s, answer) == go(
            s,
            ControlView::Unwind(SignalView::Continue),
        ),
{
}

/// The operands of an infix operator are evaluated from left to right and
/// the operator is applied to their two values: evaluation starts with the
/// left operand; when its value arrives, the right operand is evaluated;
/// when that value arrives, the operator is applied.
pub proof fn lemma_operands_left_to_right(
    s: State,
    left: ExprView,
    operator: TokenView,
    right: ExprView,
    after_left: State,
    first: ObjectView,
    after_right: State,
    second: ObjectView,
)
    requires
        s.control == (ControlView::Evaluate(
            ExprView::Binary { left: Box::new(left), operator, right: Box::new(right) },
        )),
        after_left.control == ControlView::Value(first),
        after_left.stack == step(s, None).0.stack,
        after_right.control == ControlView::Value(second),
        after_right.stack == step(after_left, None).0.stack,
    ensures
        step(s, None).0.control == ControlView::Evaluate(left),
        step(s, None).0.stack == s.stack.push(FrameView::BinaryLeft { operator, right }),
        step(after_left, None).0.control == ControlView::Evaluate(right),
        step(after_left, None).0.stack == s.stack.push(
            FrameView::BinaryRight { operator, left: first },
        ),
        step(after_right, None) == settled(
            popped(go(after_right, ControlView::Done).0),
            binary_result(operator, first, second),
        ),
        step(after_right, None).0.stack == s.stack,
{
    let pushed = s.stack.push(FrameView::BinaryLeft { operator, right });
    assert(pushed.drop_last() =~= s.stack);
    let again = s.stack.push(FrameView::BinaryRight { operator, left: first });
    assert(again.drop_last() =~= s.stack);
}

/// `or` yields its left operand if that is truthy and `and` yields it if it
/// is not, in both cases without evaluating the right operand; otherwise
/// the right operand is evaluated and its value is the result.
pub proof fn lemma_logical_short_circuit(
    s: State,
    operator: TokenView,
    right: ExprView,
    v: ObjectView,
    answer: Option<Number>,
)
    requires
        s.control == ControlView::Value(v),
        s.stack.len() > 0,
        s.stack.last() == (FrameView::Logical { operator, right }),
    ensures
        step(s, answer).0.stack == s.stack.drop_last(),
        step(s, answer).0.environment == s.environment,
        step(s, answer).0.control == if (operator.token_type == TokenType::OR)
            == truthy(v) {
            ControlView::Value(v)
        } else {
            ControlView::Evaluate(right)
        },
{
}

/// The arguments of a call are evaluated from left to right, after the
/// callee; the call is made when the value of the last one has arrived.
pub proof fn lemma_arguments_left_to_right(
    s: State,
    paren: TokenView,
    callee: ObjectView,
    arguments: Seq<ExprView>,
    values: Seq<ObjectView>,
    v: ObjectView,
    answer: Option<Number>,
)
    requires
        s.control == ControlView::Value(v),
        s.stack.len() > 0,
        s.stack.last() == (FrameView::Arguments { paren, callee, arguments, values }),
    ensures
        values.len() + 1 < arguments.len() ==> {
            &&& step(s, answer).0.control == ControlView::Evaluate(
                arguments[values.len() as int + 1],
            )
            &&& step(s, answer).0.stack == s.stack.drop_last().push(
                FrameView::Arguments { paren, callee, arguments, values: values.push(v) },
            )
        },
        values.len() + 1 >= arguments.len() ==> step(s, answer) == invoked(
            popped(go(s, ControlView::Done).0),
            callee,
            paren,
            values.push(v),
        ),
{
}

/// No function is running: no frame on the stack is that of a call.
pub open spec fn outside_functions(stack: Seq<FrameView>) -> bool {
    forall|i: int| 0 <= i < stack.len() ==> !(#[trigger] stack[i] is Invoke)
}

/// A `return` outside any function leaves every block and loop and then the
/// program: after one step for each frame the next step reports the signal
/// as unhandled.
pub proof fn lemma_return_outside_function(s: State, v: ObjectView)
    requires
        s.control == ControlView::Unwind(SignalView::Return(v)),
        outside_functions(s.stack),
    ensures
        steps(s, s.stack.len()).stack.len() == 0,
        steps(s, s.stack.len()).control == s.control,
        step(steps(s, s.stack.len()), None).1 == ActionView::Unhandled(SignalView::Return(v)),
        step(steps(s, s.stack.len()), None).0.control == ControlView::Done,
    decreases s.stack.len(),
{
    if s.stack.len() > 0 {
        let next = step(s, None).0;
        assert(!(s.stack[s.stack.len() - 1] is Invoke));
        assert(next.stack == s.stack.drop_last());
        assert(next.control == s.control);
        assert forall|i: int| 0 <= i < next.stack.len() implies !(#[trigger] next.stack[i]
            is Invoke) by {
            assert(next.stack[i] == s.stack[i]);
        }
        lemma_return_outside_function(next, v);
    }
}

/// A failure ends the run: nothing catches it. It leaves one frame with
/// each step, and when no frame is left the next step reports it. No
/// statement is executed and no expression evaluated on the way.
pub proof fn lemma_failure_ends_the_run(s: State, e: LoxErrorView)
    requires
        s.control == ControlView::Unwind(SignalView::Failure(e)),
    ensures
        steps(s, s.stack.len()).stack.len() == 0,
        steps(s, s.stack.len()).control == s.control,
        step(steps(s, s.stack.len()), None).1 == ActionView::Failed(e),
        step(steps(s, s.stack.len()), None).0.control == ControlView::Done,
    decreases s.stack.len(),
{
    if s.stack.len() > 0 {
        let next = step(s, None).0;
        assert(next.stack == s.stack.drop_last());
        assert(next.control == s.control);
        lemma_failure_ends_the_run(next, e);
    }
}

/// The statements of a block run in order: when one has ended, the next one
/// is executed, in the scope of the block.
pub proof fn lemma_block_runs_in_order(
    s: State,
    statements: Seq<StmtView>,
    next: nat,
    previous: nat,
    answer: Option<Number>,
)
    requires
        s.control == ControlView::Completed,
        s.stack.len() > 0,
        s.stack.last() == (FrameView::Block { statements, next, previous }),
        next < statements.len(),
    ensures
        step(s, answer).0.control == ControlView::Execute(statements[next as int]),
        step(s, answer).0.stack == s.stack.drop_last().push(
            FrameView::Block { statements, next: next + 1, previous },
        ),
        step(s, answer).0.current == s.current,
        step(s, answer).0.environment == s.environment,
        step(s, answer).1 == ActionView::Continue,
{
}

/// A function call catches the `return` of its body: the value becomes the
/// value of the call.
pub proof fn lemma_call_catches_return(s: State, v: ObjectView, answer: Option<Number>)
    requires
        s.control == ControlView::Unwind(SignalView::Return(v)),
        s.stack.len() > 0,
        s.stack.last() == FrameView::Invoke,
    ensures
        step(s, answer) == go(popped(s), ControlView::Value(v)),
{
}

/// A loop catches `break` and ends, and catches `continue` and goes to its
/// test; a `return` passes through it.
pub proof fn lemma_loop_catches_jumps(
    s: State,
    signal: SignalView,
    condition: ExprView,
    body: StmtView,
    answer: Option<Number>,
)
    requires
        s.control == ControlView::Unwind(signal),
        s.stack.len() > 0,
        s.stack.last() == (FrameView::LoopBody { condition, body }),
    ensures
        signal is Break ==> step(s, answer).0.control == ControlView::Completed && step(
            s,
            answer,
        ).0.stack == s.stack.drop_last(),
        signal is Continue ==> step(s, answer).0.control == ControlView::Evaluate(condition)
            && step(s, answer).0.stack == s.stack.drop_last().push(
            FrameView::LoopTest { condition, body },
        ),
        signal is Return ==> step(s, answer).0.control == s.control && step(s, answer).0.stack
            == s.stack.drop_last(),
{
}

/// When a block ends, the scope that was current before it is current
/// again, and no scope has been touched.
pub proof fn lemma_block_end_restores_scope(
    s: State,
    statements: Seq<StmtView>,
    previous: nat,
    answer: Option<Number>,
)
    requires
        s.control == ControlView::Completed,
        s.stack.len() > 0,
        s.stack.last() == (FrameView::Block { statements, next: statements.len(), previous }),
    ensures
        step(s, answer).0.current == previous,
        step(s, answer).0.environment == s.environment,
        step(s, answer).0.control == ControlView::Completed,
        step(s, answer).0.stack == s.stack.drop_last(),
{
}

/// A signal that leaves a block makes the scope that was current before the
/// block current again, as the end of the block does.
pub proof fn lemma_block_exit_restores_scope(
    s: State,
    signal: SignalView,
    statements: Seq<StmtView>,
    next: nat,
    previous: nat,
    answer: Option<Number>,
)
    requires
        s.control == ControlView::Unwind(signal),
        s.stack.len() > 0,
        s.stack.last() == (FrameView::Block { statements, next, previous }),
    ensures
        step(s, answer).0.current == previous,
        step(s, answer).0.environment == s.environment,
        step(s, answer).0.control == s.control,
        step(s, answer).0.stack == s.stack.drop_last(),
{
}

/// The second store has every scope of the first, each inside the scope it
/// was made in.
pub open spec fn extends(first: Seq<ScopeView>, second: Seq<ScopeView>) -> bool {
    &&& first.len() <= second.len()
    &&& forall|i: int| 0 <= i < first.len() ==> (#[trigger] second[i]).enclosing == first[i].enclosing
}

proof fn lemma_bound_all_extends(
    environment: Seq<ScopeView>,
    scope: nat,
    params: Seq<TokenView>,
    arguments: Seq<ObjectView>,
    count: nat,
)
    requires
        scope < environment.len(),
    ensures
        bound_all(environment, scope, params, arguments, count).len() == environment.len(),
        extends(environment, bound_all(environment, scope, params, arguments, count)),
    decreases count,
{
    if count > 0 {
        lemma_bound_all_extends(environment, scope, params, arguments, (count - 1) as nat);
    }
}

proof fn lemma_invoked_extends(
    s: State,
    callee: ObjectView,
    paren: TokenView,
    arguments: Seq<ObjectView>,
)
    requires
        state_ok(s),
    ensures
        extends(s.environment, invoked(s, callee, paren, arguments).0.environment),
{
    match callee {
        ObjectView::Callable(f) => {
            if f.closure < s.environment.len() {
                lemma_bound_all_extends(
                    nested(s.environment, f.closure),
                    s.environment.len(),
                    f.params,
                    arguments,
                    smaller(f.params.len(), arguments.len()),
                );
            }
        },
        _ => {},
    }
}

/// No step drops a scope or moves it to another place: a scope lives on
/// after the block or the call that made it has ended, inside the scope it
/// was made in, for any function value that holds it.
pub proof fn lemma_scopes_persist(s: State, answer: Option<Number>)
    requires
        state_ok(s),
    ensures
        extends(s.environment, step(s, answer).0.environment),
{
    let idle = go(s, ControlView::Done).0;
    match s.control {
        ControlView::Value(v) => {
            if s.stack.len() > 0 {
                let rest = popped(idle);
                assert(state_ok(rest)) by {
                    assert forall|i: int| 0 <= i < rest.stack.len() implies frame_ok(
                        #[trigger] rest.stack[i],
                        rest.environment.len(),
                    ) by {
                        assert(rest.stack[i] == s.stack[i]);
                    }
                }
                match s.stack.last() {
                    FrameView::Assign { name } => {
                        lemma_resolve_within(s.environment, s.current, name.lexeme);
                    },
                    FrameView::Callee { paren, arguments } => {
                        lemma_invoked_extends(rest, v, paren, Seq::empty());
                    },
                    FrameView::Arguments { paren, callee, arguments, values } => {
                        lemma_invoked_extends(rest, callee, paren, values.push(v));
                    },
                    _ => {},
                }
            }
        },
        _ => {},
    }
}

} // verus!

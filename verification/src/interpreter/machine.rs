//! The evaluator as an abstract machine. A state is the store of scopes, the
//! current scope, a stack of frames that say what is still to be done with
//! the results of what is running, and what is running. One step takes a
//! state to the next and may ask for something to be done outside: a line to
//! be written, a number to be computed.
use vstd::prelude::*;
use crate::ast_tools::{ExprView, StmtView};
use crate::environment::{
    assigned,
    bound,
    flagged,
    lookup,
    nested,
    resolve,
    undefined,
    well_nested,
    ScopeView,
};
use crate::error::LoxErrorView;
use crate::function::FunctionView;
use crate::number::Number;
use crate::object::{
    binary_result,
    literal_value,
    runtime_error,
    shown,
    truthy,
    unary_result,
    AppliedView,
    Arithmetic,
    ObjectView,
    OutputView,
};
use crate::text::decimal;
use crate::token::{LiteralView, TokenType, TokenView};

verus! {

/// A reason to leave what is running: a jump out of a loop or a function, or
/// a failure.
pub enum SignalView {
    Break,
    Continue,
    Return(ObjectView),
    Failure(LoxErrorView),
}

/// What is to be done with the result of what is running.
#[allow(inconsistent_fields)]
pub enum FrameView {
    /// The left operand is being evaluated; the right one comes next.
    BinaryLeft { operator: TokenView, right: ExprView },
    /// The right operand is being evaluated; then the operator is applied.
    BinaryRight { operator: TokenView, left: ObjectView },
    /// The left operand of `and` or `or` is being evaluated.
    Logical { operator: TokenView, right: ExprView },
    /// The operand of a prefix operator is being evaluated.
    Unary { operator: TokenView },
    /// The value to assign is being evaluated.
    Assign { name: TokenView },
    /// The callee is being evaluated; the arguments come next.
    Callee { paren: TokenView, arguments: Seq<ExprView> },
    /// The argument after those in `values` is being evaluated.
    Arguments {
        paren: TokenView,
        callee: ObjectView,
        arguments: Seq<ExprView>,
        values: Seq<ObjectView>,
    },
    /// The value of an expression statement is dropped.
    Discard,
    /// The value is printed.
    Print,
    /// The value initialises a variable.
    Define { name: TokenView },
    /// The value chooses the branch of an `if`.
    Branch { then_branch: StmtView, else_branch: Option<StmtView> },
    /// The value decides whether the loop goes on.
    LoopTest { condition: ExprView, body: StmtView },
    /// The body of a loop is running.
    LoopBody { condition: ExprView, body: StmtView },
    /// The statements from `next` on are still to run; then the scope
    /// `previous` becomes current again.
    Block { statements: Seq<StmtView>, next: nat, previous: nat },
    /// The body of a function is running.
    Invoke,
    /// The value is returned from the function.
    Returning,
}

/// What is running.
pub enum ControlView {
    /// An expression is to be evaluated.
    Evaluate(ExprView),
    /// A statement is to be executed.
    Execute(StmtView),
    /// An expression has been evaluated to this value.
    Value(ObjectView),
    /// A statement has run to its end.
    Completed,
    /// A signal is on its way to the frame that handles it.
    Unwind(SignalView),
    /// The number that this text stands for has been asked for.
    AwaitParse(Seq<char>),
    /// The result of this arithmetic has been asked for.
    AwaitCompute { operation: Arithmetic, left: Number, right: Number },
    /// Nothing is left to do.
    Done,
}

/// What a step asks its caller to do.
pub enum ActionView {
    /// Nothing; take the next step.
    Continue,
    /// Write this as one line of output.
    Print(OutputView),
    /// Answer the next step with the number that this text stands for.
    Parse(Seq<char>),
    /// Answer the next step with the result of this arithmetic.
    Compute { operation: Arithmetic, left: Number, right: Number },
    /// The program has run to its end.
    Finished,
    /// The program has failed.
    Failed(LoxErrorView),
    /// A `break`, `continue` or `return` has left the program.
    Unhandled(SignalView),
}

/// A state of the machine.
pub struct State {
    pub environment: Seq<ScopeView>,
    pub current: nat,
    pub stack: Seq<FrameView>,
    pub control: ControlView,
}

/// The largest number of scopes that a store can name.
pub open spec fn scope_limit() -> nat {
    usize::MAX as nat
}

/// A block goes back to a scope that exists.
pub open spec fn frame_ok(frame: FrameView, scopes: nat) -> bool {
    match frame {
        FrameView::Block { previous, .. } => previous < scopes,
        _ => true,
    }
}

/// Every block on the stack goes back to a scope that exists.
pub open spec fn frames_ok(stack: Seq<FrameView>, scopes: nat) -> bool {
    forall|i: int| 0 <= i < stack.len() ==> frame_ok(#[trigger] stack[i], scopes)
}

/// The scopes are well nested, and the current scope and those that the
/// stack goes back to exist.
pub open spec fn state_ok(s: State) -> bool {
    &&& well_nested(s.environment)
    &&& s.current < s.environment.len()
    &&& frames_ok(s.stack, s.environment.len())
}

/// The state goes on with `control`; nothing is asked of the caller.
pub open spec fn go(s: State, control: ControlView) -> (State, ActionView) {
    (
        State { environment: s.environment, current: s.current, stack: s.stack, control },
        ActionView::Continue,
    )
}

/// The state goes on with the failure `e` on its way out.
pub open spec fn fail_with(s: State, e: LoxErrorView) -> (State, ActionView) {
    go(s, ControlView::Unwind(SignalView::Failure(e)))
}

/// The state with one more frame on the stack.
pub open spec fn pushed(s: State, frame: FrameView) -> State {
    State {
        environment: s.environment,
        current: s.current,
        stack: s.stack.push(frame),
        control: s.control,
    }
}

/// The state without the frame on top of the stack.
pub open spec fn popped(s: State) -> State {
    State {
        environment: s.environment,
        current: s.current,
        stack: s.stack.drop_last(),
        control: s.control,
    }
}

/// The state with another store of scopes.
pub open spec fn with_environment(s: State, environment: Seq<ScopeView>) -> State {
    State { environment, current: s.current, stack: s.stack, control: s.control }
}

/// The state with another current scope.
pub open spec fn with_current(s: State, current: nat) -> State {
    State { environment: s.environment, current, stack: s.stack, control: s.control }
}

/// The failure of a block or a call for which no further scope can be made.
pub open spec fn too_many_scopes() -> LoxErrorView {
    LoxErrorView::Error("Too many scopes."@)
}

/// The failure of a call of a function whose scope does not exist.
pub open spec fn no_such_scope() -> LoxErrorView {
    LoxErrorView::Error("The function's scope does not exist."@)
}

/// The failure of running a statement that could not be parsed.
pub open spec fn not_parsed() -> LoxErrorView {
    LoxErrorView::Error("The statement could not be parsed."@)
}

/// The failure of a call with the wrong number of arguments.
pub open spec fn arity_error(paren: TokenView, expected: nat, got: nat) -> LoxErrorView {
    runtime_error(
        paren,
        "Expected "@ + decimal(expected) + " arguments, but got "@ + decimal(got) + "."@,
    )
}

/// The failure of a call of something that is not a function.
pub open spec fn not_callable(paren: TokenView) -> LoxErrorView {
    runtime_error(paren, "Can only call functions."@)
}

/// The first step of evaluating an expression.
pub open spec fn begin_evaluate(s: State, e: ExprView) -> (State, ActionView) {
    match e {
        ExprView::Literal { value } => match value {
            LiteralView::Number(text) => (
                go(s, ControlView::AwaitParse(text)).0,
                ActionView::Parse(text),
            ),
            _ => go(s, ControlView::Value(literal_value(value).unwrap())),
        },
        ExprView::Grouping { expression } => go(s, ControlView::Evaluate(*expression)),
        ExprView::Unary { operator, right } => go(
            pushed(s, FrameView::Unary { operator }),
            ControlView::Evaluate(*right),
        ),
        ExprView::Binary { left, operator, right } => go(
            pushed(s, FrameView::BinaryLeft { operator, right: *right }),
            ControlView::Evaluate(*left),
        ),
        ExprView::Logical { left, operator, right } => go(
            pushed(s, FrameView::Logical { operator, right: *right }),
            ControlView::Evaluate(*left),
        ),
        ExprView::Variable { name } => match lookup(s.environment, s.current, name.lexeme) {
            Some(v) => go(s, ControlView::Value(v)),
            None => fail_with(s, undefined(name)),
        },
        ExprView::Assign { name, value } => go(
            pushed(s, FrameView::Assign { name }),
            ControlView::Evaluate(*value),
        ),
        ExprView::Call { callee, paren, arguments } => go(
            pushed(s, FrameView::Callee { paren, arguments }),
            ControlView::Evaluate(*callee),
        ),
    }
}

/// The state in which the statements run in the scope `scope`, after which
/// the scope that is current now is current again.
pub open spec fn in_block(s: State, statements: Seq<StmtView>, scope: nat) -> (State, ActionView) {
    go(
        with_current(
            pushed(s, FrameView::Block { statements, next: 0, previous: s.current }),
            scope,
        ),
        ControlView::Completed,
    )
}

/// The first step of executing a statement.
pub open spec fn begin_execute(s: State, statement: StmtView) -> (State, ActionView) {
    match statement {
        StmtView::Expression { expression } => go(
            pushed(s, FrameView::Discard),
            ControlView::Evaluate(expression),
        ),
        StmtView::Print { expression } => go(
            pushed(s, FrameView::Print),
            ControlView::Evaluate(expression),
        ),
        StmtView::Var { name, initializer } => match initializer {
            Some(e) => go(pushed(s, FrameView::Define { name }), ControlView::Evaluate(e)),
            None => go(
                with_environment(
                    s,
                    bound(s.environment, s.current, name.lexeme, ObjectView::NONE),
                ),
                ControlView::Completed,
            ),
        },
        StmtView::Block { statements } => if s.environment.len() >= scope_limit() {
            fail_with(s, too_many_scopes())
        } else {
            in_block(
                with_environment(s, nested(s.environment, s.current)),
                statements,
                s.environment.len(),
            )
        },
        StmtView::If { condition, then_branch, else_branch } => go(
            pushed(
                s,
                FrameView::Branch {
                    then_branch: *then_branch,
                    else_branch: match else_branch {
                        Some(b) => Some(*b),
                        None => None,
                    },
                },
            ),
            ControlView::Evaluate(condition),
        ),
        StmtView::While { condition, body } => go(
            pushed(
                with_environment(s, flagged(s.environment, s.current, true)),
                FrameView::LoopTest { condition, body: *body },
            ),
            ControlView::Evaluate(condition),
        ),
        StmtView::Function { name, paramaters, body } => go(
            with_environment(
                s,
                bound(
                    s.environment,
                    s.current,
                    name.lexeme,
                    ObjectView::Callable(
                        FunctionView { name, params: paramaters, body, closure: s.current },
                    ),
                ),
            ),
            ControlView::Completed,
        ),
        StmtView::Return { keyword, value } => match value {
            Some(e) => go(pushed(s, FrameView::Returning), ControlView::Evaluate(e)),
            None => go(s, ControlView::Unwind(SignalView::Return(ObjectView::NONE))),
        },
        StmtView::Break => if s.environment[s.current as int].is_enclosed_in_loop {
            go(s, ControlView::Unwind(SignalView::Break))
        } else {
            go(s, ControlView::Completed)
        },
        StmtView::Continue => if s.environment[s.current as int].is_enclosed_in_loop {
            go(s, ControlView::Unwind(SignalView::Continue))
        } else {
            go(s, ControlView::Completed)
        },
        StmtView::NONE => fail_with(s, not_parsed()),
    }
}

/// The store after the first `count` parameters have been bound to their
/// arguments in `scope`.
pub open spec fn bound_all(
    environment: Seq<ScopeView>,
    scope: nat,
    params: Seq<TokenView>,
    arguments: Seq<ObjectView>,
    count: nat,
) -> Seq<ScopeView>
    decreases count,
{
    if count == 0 {
        environment
    } else {
        bound(
            bound_all(environment, scope, params, arguments, (count - 1) as nat),
            scope,
            params[count - 1].lexeme,
            arguments[count - 1],
        )
    }
}

/// The smaller of two numbers.
pub open spec fn smaller(a: nat, b: nat) -> nat {
    if a < b {
        a
    } else {
        b
    }
}

/// The state in which the body of the function runs in a new scope inside
/// the function's own, with the parameters bound to the arguments; or the
/// failure if the scope cannot be made.
pub open spec fn entered(s: State, f: FunctionView, arguments: Seq<ObjectView>) -> (
    State,
    ActionView,
) {
    if f.closure >= s.environment.len() {
        fail_with(s, no_such_scope())
    } else if s.environment.len() >= scope_limit() {
        fail_with(s, too_many_scopes())
    } else {
        let scope = s.environment.len();
        let environment = bound_all(
            nested(s.environment, f.closure),
            scope,
            f.params,
            arguments,
            smaller(f.params.len(), arguments.len()),
        );
        in_block(pushed(with_environment(s, environment), FrameView::Invoke), f.body, scope)
    }
}

/// The call of `callee` with the arguments.
pub open spec fn invoked(
    s: State,
    callee: ObjectView,
    paren: TokenView,
    arguments: Seq<ObjectView>,
) -> (State, ActionView) {
    match callee {
        ObjectView::Callable(f) => if arguments.len() != f.params.len() {
            fail_with(s, arity_error(paren, f.params.len(), arguments.len()))
        } else {
            entered(s, f, arguments)
        },
        _ => fail_with(s, not_callable(paren)),
    }
}

/// What becomes of the result of applying an operator.
pub open spec fn settled(s: State, applied: AppliedView) -> (State, ActionView) {
    match applied {
        AppliedView::Value(v) => go(s, ControlView::Value(v)),
        AppliedView::Failure(e) => fail_with(s, e),
        AppliedView::Compute { operation, left, right } => (
            go(s, ControlView::AwaitCompute { operation, left, right }).0,
            ActionView::Compute { operation, left, right },
        ),
    }
}

/// What a frame does with the value of the expression that ran above it.
/// `rest` is the state without the frame.
pub open spec fn delivered(rest: State, frame: FrameView, v: ObjectView) -> (State, ActionView) {
    match frame {
        FrameView::BinaryLeft { operator, right } => go(
            pushed(rest, FrameView::BinaryRight { operator, left: v }),
            ControlView::Evaluate(right),
        ),
        FrameView::BinaryRight { operator, left } => settled(rest, binary_result(operator, left, v)),
        FrameView::Logical { operator, right } => if (operator.token_type == TokenType::OR)
            == truthy(v) {
            go(rest, ControlView::Value(v))
        } else {
            go(rest, ControlView::Evaluate(right))
        },
        FrameView::Unary { operator } => settled(rest, unary_result(operator, v)),
        FrameView::Assign { name } => match resolve(rest.environment, rest.current, name.lexeme) {
            Some(_) => go(
                with_environment(rest, assigned(rest.environment, rest.current, name.lexeme, v)),
                ControlView::Value(v),
            ),
            None => fail_with(rest, undefined(name)),
        },
        FrameView::Callee { paren, arguments } => if arguments.len() == 0 {
            invoked(rest, v, paren, Seq::empty())
        } else {
            go(
                pushed(
                    rest,
                    FrameView::Arguments { paren, callee: v, arguments, values: Seq::empty() },
                ),
                ControlView::Evaluate(arguments[0]),
            )
        },
        FrameView::Arguments { paren, callee, arguments, values } => {
            let all = values.push(v);
            if all.len() < arguments.len() {
                go(
                    pushed(rest, FrameView::Arguments { paren, callee, arguments, values: all }),
                    ControlView::Evaluate(arguments[all.len() as int]),
                )
            } else {
                invoked(rest, callee, paren, all)
            }
        },
        FrameView::Discard => go(rest, ControlView::Completed),
        FrameView::Print => (go(rest, ControlView::Completed).0, ActionView::Print(shown(v))),
        FrameView::Define { name } => go(
            with_environment(rest, bound(rest.environment, rest.current, name.lexeme, v)),
            ControlView::Completed,
        ),
        FrameView::Branch { then_branch, else_branch } => if truthy(v) {
            go(rest, ControlView::Execute(then_branch))
        } else {
            match else_branch {
                Some(other) => go(rest, ControlView::Execute(other)),
                None => go(rest, ControlView::Completed),
            }
        },
        FrameView::LoopTest { condition, body } => if truthy(v) {
            go(pushed(rest, FrameView::LoopBody { condition, body }), ControlView::Execute(body))
        } else {
            go(
                with_environment(rest, flagged(rest.environment, rest.current, false)),
                ControlView::Completed,
            )
        },
        FrameView::Returning => go(rest, ControlView::Unwind(SignalView::Return(v))),
        _ => go(pushed(rest, frame), ControlView::Completed),
    }
}

/// The step that hands the value of an expression to the frame on top of the
/// stack. A frame that waits for a statement stays and drops the value.
pub open spec fn deliver(s: State, v: ObjectView) -> (State, ActionView) {
    if s.stack.len() == 0 {
        (go(s, ControlView::Done).0, ActionView::Finished)
    } else {
        delivered(popped(s), s.stack.last(), v)
    }
}

/// The step after a statement has run to its end.
pub open spec fn proceed(s: State) -> (State, ActionView) {
    if s.stack.len() == 0 {
        (go(s, ControlView::Done).0, ActionView::Finished)
    } else {
        let rest = popped(s);
        match s.stack.last() {
            FrameView::Block { statements, next, previous } => if next < statements.len() {
                go(
                    pushed(rest, FrameView::Block { statements, next: next + 1, previous }),
                    ControlView::Execute(statements[next as int]),
                )
            } else {
                go(with_current(rest, previous), ControlView::Completed)
            },
            FrameView::LoopBody { condition, body } => go(
                pushed(rest, FrameView::LoopTest { condition, body }),
                ControlView::Evaluate(condition),
            ),
            FrameView::Invoke => go(rest, ControlView::Value(ObjectView::NONE)),
            _ => go(rest, ControlView::Completed),
        }
    }
}

/// What a loop does with a signal that reaches it: `break` ends it,
/// `continue` takes it to its test, anything else passes through it. The
/// loop flag of the current scope is cleared when the loop is left.
pub open spec fn loop_caught(
    rest: State,
    signal: SignalView,
    condition: ExprView,
    body: StmtView,
) -> (State, ActionView) {
    match signal {
        SignalView::Break => go(
            with_environment(rest, flagged(rest.environment, rest.current, false)),
            ControlView::Completed,
        ),
        SignalView::Continue => go(
            pushed(rest, FrameView::LoopTest { condition, body }),
            ControlView::Evaluate(condition),
        ),
        _ => go(
            with_environment(rest, flagged(rest.environment, rest.current, false)),
            ControlView::Unwind(signal),
        ),
    }
}

/// The step that takes a signal one frame further out.
pub open spec fn unwind(s: State, signal: SignalView) -> (State, ActionView) {
    if s.stack.len() == 0 {
        (
            go(s, ControlView::Done).0,
            match signal {
                SignalView::Failure(e) => ActionView::Failed(e),
                _ => ActionView::Unhandled(signal),
            },
        )
    } else {
        let rest = popped(s);
        match s.stack.last() {
            FrameView::Block { previous, .. } => go(
                with_current(rest, previous),
                ControlView::Unwind(signal),
            ),
            FrameView::LoopTest { condition, body } => loop_caught(rest, signal, condition, body),
            FrameView::LoopBody { condition, body } => loop_caught(rest, signal, condition, body),
            FrameView::Invoke => match signal {
                SignalView::Return(v) => go(rest, ControlView::Value(v)),
                _ => go(rest, ControlView::Unwind(signal)),
            },
            _ => go(rest, ControlView::Unwind(signal)),
        }
    }
}

/// One step of the machine. `answer` is the number that the step before
/// asked for, if it asked for one.
pub open spec fn step(s: State, answer: Option<Number>) -> (State, ActionView) {
    let idle = go(s, ControlView::Done).0;
    match s.control {
        ControlView::Evaluate(e) => begin_evaluate(idle, e),
        ControlView::Execute(statement) => begin_execute(idle, statement),
        ControlView::Value(v) => deliver(idle, v),
        ControlView::Completed => proceed(idle),
        ControlView::Unwind(signal) => unwind(idle, signal),
        ControlView::AwaitParse(text) => match answer {
            Some(n) => go(s, ControlView::Value(ObjectView::Number(n))),
            None => (s, ActionView::Parse(text)),
        },
        ControlView::AwaitCompute { operation, left, right } => match answer {
            Some(n) => go(s, ControlView::Value(ObjectView::Number(n))),
            None => (s, ActionView::Compute { operation, left, right }),
        },
        ControlView::Done => (s, ActionView::Finished),
    }
}

} // verus!

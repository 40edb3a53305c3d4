//! The evaluator: it walks the syntax tree one step at a time.
//!
//! [`Interpreter::step`] does what [`machine::step`] says. Whoever drives the
//! interpreter calls it until it reports the end, writes the lines it asks to
//! be printed and answers its requests for numbers.
use vstd::prelude::*;
use vstd::string::StringExecFns;
use crate::ast_tools::{exprs_view, stmts_view, Expr, ExprView, Stmt, StmtView};
use crate::environment::{Environment, ScopeView};
use crate::error::{LoxError, LoxErrorView};
use crate::function::Function;
use crate::interpreter::machine::{
    begin_evaluate,
    begin_execute,
    deliver,
    delivered,
    entered,
    frames_ok,
    in_block,
    invoked,
    proceed,
    settled,
    state_ok,
    unwind,
    ActionView,
    ControlView,
    FrameView,
    SignalView,
    State,
};
use crate::number::Number;
use crate::object::{
    apply_binary,
    apply_unary,
    objects_view,
    runtime_failure,
    Applied,
    Arithmetic,
    Object,
    ObjectView,
    Output,
};
use crate::text::{push_decimal, push_text};
use crate::token::{Literal, Token, TokenType};

pub mod lemmas;
pub mod machine;

verus! {

/// A reason to leave what is running.
#[derive(Debug)]
pub enum Signal<'a> {
    Break,
    Continue,
    Return(Object<'a>),
    Failure(LoxError),
}

impl<'a> View for Signal<'a> {
    type V = SignalView;

    open spec fn view(&self) -> SignalView {
        match self {
            Signal::Break => SignalView::Break,
            Signal::Continue => SignalView::Continue,
            Signal::Return(v) => SignalView::Return(v@),
            Signal::Failure(e) => SignalView::Failure(e@),
        }
    }
}

/// What is to be done with the result of what is running.
#[allow(inconsistent_fields)]
#[derive(Debug)]
pub enum Frame<'a> {
    BinaryLeft { operator: &'a Token, right: &'a Expr },
    BinaryRight { operator: &'a Token, left: Object<'a> },
    Logical { operator: &'a Token, right: &'a Expr },
    Unary { operator: &'a Token },
    Assign { name: &'a Token },
    Callee { paren: &'a Token, arguments: &'a Vec<Expr> },
    Arguments {
        paren: &'a Token,
        callee: Object<'a>,
        arguments: &'a Vec<Expr>,
        values: Vec<Object<'a>>,
    },
    Discard,
    Print,
    Define { name: &'a Token },
    Branch { then_branch: &'a Stmt, else_branch: &'a Option<Stmt> },
    LoopTest { condition: &'a Expr, body: &'a Stmt },
    LoopBody { condition: &'a Expr, body: &'a Stmt },
    Block { statements: &'a Vec<Stmt>, next: usize, previous: usize },
    Invoke,
    Returning,
}

impl<'a> View for Frame<'a> {
    type V = FrameView;

    open spec fn view(&self) -> FrameView {
        match self {
            Frame::BinaryLeft { operator, right } => FrameView::BinaryLeft {
                operator: operator@,
                right: right@,
            },
            Frame::BinaryRight { operator, left } => FrameView::BinaryRight {
                operator: operator@,
                left: left@,
            },
            Frame::Logical { operator, right } => FrameView::Logical {
                operator: operator@,
                right: right@,
            },
            Frame::Unary { operator } => FrameView::Unary { operator: operator@ },
            Frame::Assign { name } => FrameView::Assign { name: name@ },
            Frame::Callee { paren, arguments } => FrameView::Callee {
                paren: paren@,
                arguments: exprs_view(arguments@),
            },
            Frame::Arguments { paren, callee, arguments, values } => FrameView::Arguments {
                paren: paren@,
                callee: callee@,
                arguments: exprs_view(arguments@),
                values: objects_view(values@),
            },
            Frame::Discard => FrameView::Discard,
            Frame::Print => FrameView::Print,
            Frame::Define { name } => FrameView::Define { name: name@ },
            Frame::Branch { then_branch, else_branch } => FrameView::Branch {
                then_branch: then_branch@,
                else_branch: match else_branch {
                    Some(s) => Some(s@),
                    None => None,
                },
            },
            Frame::LoopTest { condition, body } => FrameView::LoopTest {
                condition: condition@,
                body: body@,
            },
            Frame::LoopBody { condition, body } => FrameView::LoopBody {
                condition: condition@,
                body: body@,
            },
            Frame::Block { statements, next, previous } => FrameView::Block {
                statements: stmts_view(statements@),
                next: *next as nat,
                previous: *previous as nat,
            },
            Frame::Invoke => FrameView::Invoke,
            Frame::Returning => FrameView::Returning,
        }
    }
}

/// The views of a stack of frames, one for one.
pub open spec fn frames_view<'a>(frames: Seq<Frame<'a>>) -> Seq<FrameView> {
    Seq::new(frames.len(), |i: int| frames[i]@)
}

/// What is running.
#[derive(Debug)]
pub enum Control<'a> {
    Evaluate(&'a Expr),
    Execute(&'a Stmt),
    Value(Object<'a>),
    Completed,
    Unwind(Signal<'a>),
    AwaitParse(&'a String),
    AwaitCompute { operation: Arithmetic, left: Number, right: Number },
    Done,
}

impl<'a> View for Control<'a> {
    type V = ControlView;

    open spec fn view(&self) -> ControlView {
        match self {
            Control::Evaluate(e) => ControlView::Evaluate(e@),
            Control::Execute(s) => ControlView::Execute(s@),
            Control::Value(v) => ControlView::Value(v@),
            Control::Completed => ControlView::Completed,
            Control::Unwind(signal) => ControlView::Unwind(signal@),
            Control::AwaitParse(text) => ControlView::AwaitParse(text@),
            Control::AwaitCompute { operation, left, right } => ControlView::AwaitCompute {
                operation: *operation,
                left: *left,
                right: *right,
            },
            Control::Done => ControlView::Done,
        }
    }
}

/// What a step asks its caller to do.
#[derive(Debug)]
pub enum Action<'a> {
    /// Nothing; take the next step.
    Continue,
    /// Write this as one line of output.
    Print(Output),
    /// Answer the next step with the number that this text stands for.
    Parse(String),
    /// Answer the next step with the result of this arithmetic.
    Compute { operation: Arithmetic, left: Number, right: Number },
    /// The program has run to its end.
    Finished,
    /// The program has failed.
    Failed(LoxError),
    /// A `break`, `continue` or `return` has left the program.
    Unhandled(Signal<'a>),
}

impl<'a> View for Action<'a> {
    type V = ActionView;

    open spec fn view(&self) -> ActionView {
        match self {
            Action::Continue => ActionView::Continue,
            Action::Print(o) => ActionView::Print(o@),
            Action::Parse(text) => ActionView::Parse(text@),
            Action::Compute { operation, left, right } => ActionView::Compute {
                operation: *operation,
                left: *left,
                right: *right,
            },
            Action::Finished => ActionView::Finished,
            Action::Failed(e) => ActionView::Failed(e@),
            Action::Unhandled(signal) => ActionView::Unhandled(signal@),
        }
    }
}

/// The state of a run: the scopes, the current scope, the stack and what is
/// running.
pub struct Interpreter<'a> {
    environment: Environment<'a>,
    current: usize,
    stack: Vec<Frame<'a>>,
    control: Control<'a>,
}

impl<'a> View for Interpreter<'a> {
    type V = State;

    closed spec fn view(&self) -> State {
        State {
            environment: self.environment@,
            current: self.current as nat,
            stack: frames_view(self.stack@),
            control: self.control@,
        }
    }
}

fn failure<'a>(message: &str) -> (r: Control<'a>)
    ensures
        r@ == ControlView::Unwind(SignalView::Failure(LoxErrorView::Error(message@))),
{
    Control::Unwind(Signal::Failure(LoxError::Error(String::from_str(message))))
}

impl<'a> Interpreter<'a> {
    /// The state is one that a run can reach.
    pub open spec fn wf(&self) -> bool {
        state_ok(self@)
    }

    /// An interpreter with the global scope alone and nothing to do.
    pub fn new() -> (r: Self)
        ensures
            r.wf(),
            r@ == (State {
                environment: seq![
                    ScopeView { enclosing: None, values: Map::empty(), is_enclosed_in_loop: false },
                ],
                current: 0,
                stack: Seq::empty(),
                control: ControlView::Done,
            }),
    {
        let r = Interpreter {
            environment: Environment::new(),
            current: 0,
            stack: Vec::new(),
            control: Control::Done,
        };
        assert(r@.stack =~= Seq::<FrameView>::empty());
        r
    }

    fn push(&mut self, frame: Frame<'a>)
        ensures
            final(self)@ == machine::pushed(old(self)@, frame@),
            forall|n: nat|
                frames_ok(old(self)@.stack, n) && machine::frame_ok(frame@, n) ==> #[trigger] frames_ok(
                    final(self)@.stack,
                    n,
                ),
    {
        self.stack.push(frame);
        assert(self@.stack =~= old(self)@.stack.push(frame@));
    }

    fn pop(&mut self) -> (r: Option<Frame<'a>>)
        ensures
            match r {
                Some(frame) => old(self)@.stack.len() > 0 && frame@ == old(self)@.stack.last()
                    && final(self)@ == machine::popped(old(self)@),
                None => old(self)@.stack.len() == 0 && final(self)@ == old(self)@,
            },
            forall|n: nat|
                #[trigger] frames_ok(old(self)@.stack, n) ==> frames_ok(final(self)@.stack, n) && (
                r matches Some(frame) ==> machine::frame_ok(frame@, n)),
    {
        let r = self.stack.pop();
        assert(r.is_some() ==> self@.stack =~= old(self)@.stack.drop_last());
        assert forall|n: nat| #[trigger] frames_ok(old(self)@.stack, n) implies frames_ok(
            self@.stack,
            n,
        ) && (r matches Some(frame) ==> machine::frame_ok(frame@, n)) by {
            if r.is_some() {
                let before = old(self)@.stack;
                assert(machine::frame_ok(before[before.len() - 1], n));
                assert forall|i: int| 0 <= i < self@.stack.len() implies machine::frame_ok(
                    #[trigger] self@.stack[i],
                    n,
                ) by {
                    assert(self@.stack[i] == before[i]);
                }
            }
        }
        r
    }

    fn set(&mut self, control: Control<'a>) -> (r: Action<'a>)
        ensures
            (final(self)@, r@) == machine::go(old(self)@, control@),
    {
        self.control = control;
        Action::Continue
    }

    fn take(&mut self) -> (r: Control<'a>)
        ensures
            r@ == old(self)@.control,
            final(self)@ == machine::go(old(self)@, ControlView::Done).0,
    {
        let mut taken = Control::Done;
        std::mem::swap(&mut self.control, &mut taken);
        taken
    }

    /// Schedules the statements to run in the scope `environment`, after
    /// which the scope that is current now becomes current again.
    pub fn execute_block(&mut self, statements: &'a Vec<Stmt>, environment: usize)
        requires
            old(self).wf(),
            environment < old(self)@.environment.len(),
        ensures
            final(self).wf(),
            final(self)@ == in_block(old(self)@, stmts_view(statements@), environment as nat).0,
    {
        self.push(Frame::Block { statements, next: 0, previous: self.current });
        self.current = environment;
        self.control = Control::Completed;
    }

    /// Schedules a program to run in the current scope.
    pub fn interpret(&mut self, statements: &'a Vec<Stmt>)
        requires
            old(self).wf(),
        ensures
            final(self).wf(),
            final(self)@ == in_block(old(self)@, stmts_view(statements@), old(self)@.current).0,
    {
        self.execute_block(statements, self.current);
    }

    /// Takes the first step of evaluating an expression.
    fn evaluate(&mut self, expression: &'a Expr) -> (r: Action<'a>)
        requires
            old(self).wf(),
        ensures
            final(self).wf(),
            (final(self)@, r@) == begin_evaluate(old(self)@, expression@),
    {
        match expression.accept(self) {
            Ok(action) => action,
            Err(e) => self.set(Control::Unwind(Signal::Failure(e))),
        }
    }

    /// Takes the first step of executing a statement.
    fn execute(&mut self, stmt: &'a Stmt) -> (r: Action<'a>)
        requires
            old(self).wf(),
        ensures
            final(self).wf(),
            (final(self)@, r@) == begin_execute(old(self)@, stmt@),
    {
        if matches!(stmt, Stmt::NONE) {
            return self.set(failure("The statement could not be parsed."));
        }
        match stmt.accept(self) {
            Ok(action) => action,
            Err(e) => self.set(Control::Unwind(Signal::Failure(e))),
        }
    }

    /// Acts on the result of applying an operator.
    fn settle(&mut self, applied: Applied<'a>) -> (r: Action<'a>)
        requires
            old(self).wf(),
        ensures
            final(self).wf(),
            (final(self)@, r@) == settled(old(self)@, applied@),
    {
        match applied {
            Applied::Value(v) => self.set(Control::Value(v)),
            Applied::Failure(e) => self.set(Control::Unwind(Signal::Failure(e))),
            Applied::Compute { operation, left, right } => {
                self.control = Control::AwaitCompute { operation, left, right };
                Action::Compute { operation, left, right }
            },
        }
    }

    /// Calls `callee` with the arguments.
    fn invoke(&mut self, callee: Object<'a>, paren: &'a Token, arguments: Vec<Object<'a>>) -> (r:
        Action<'a>)
        requires
            old(self).wf(),
        ensures
            final(self).wf(),
            (final(self)@, r@) == invoked(old(self)@, callee@, paren@, objects_view(arguments@)),
    {
        match callee {
            Object::Callable(function) => {
                if arguments.len() != function.arity() {
                    self.set(
                        Control::Unwind(
                            Signal::Failure(
                                arity_failure(paren, function.arity(), arguments.len()),
                            ),
                        ),
                    )
                } else {
                    function.call(self, &arguments);
                    Action::Continue
                }
            },
            _ => self.set(
                Control::Unwind(Signal::Failure(runtime_failure(paren, "Can only call functions."))),
            ),
        }
    }

    /// Hands a value to a frame that waits for an operand.
    fn deliver_operand(&mut self, frame: Frame<'a>, v: Object<'a>) -> (r: Action<'a>)
        requires
            old(self).wf(),
            frame is BinaryLeft || frame is BinaryRight || frame is Logical || frame is Unary
                || frame is Assign,
        ensures
            final(self).wf(),
            (final(self)@, r@) == delivered(old(self)@, frame@, v@),
    {
        match frame {
            Frame::BinaryLeft { operator, right } => {
                self.push(Frame::BinaryRight { operator, left: v });
                self.set(Control::Evaluate(right))
            },
            Frame::BinaryRight { operator, left } => {
                let applied = apply_binary(operator, left, v);
                self.settle(applied)
            },
            Frame::Logical { operator, right } => {
                if (operator.token_type == TokenType::OR) == v.is_truthy() {
                    self.set(Control::Value(v))
                } else {
                    self.set(Control::Evaluate(right))
                }
            },
            Frame::Unary { operator } => {
                let applied = apply_unary(operator, v);
                self.settle(applied)
            },
            Frame::Assign { name } => {
                match self.environment.assign(self.current, name, v.clone()) {
                    Ok(()) => self.set(Control::Value(v)),
                    Err(e) => self.set(Control::Unwind(Signal::Failure(e))),
                }
            },
            _ => Action::Continue,
        }
    }

    /// Hands a value to a call that waits for its callee or an argument.
    fn deliver_argument(&mut self, frame: Frame<'a>, v: Object<'a>) -> (r: Action<'a>)
        requires
            old(self).wf(),
            frame is Callee || frame is Arguments,
        ensures
            final(self).wf(),
            (final(self)@, r@) == delivered(old(self)@, frame@, v@),
    {
        match frame {
            Frame::Callee { paren, arguments } => {
                let values: Vec<Object<'a>> = Vec::new();
                assert(objects_view(values@) =~= Seq::<ObjectView>::empty());
                if arguments.len() == 0 {
                    self.invoke(v, paren, values)
                } else {
                    self.push(Frame::Arguments { paren, callee: v, arguments, values });
                    self.set(Control::Evaluate(&arguments[0]))
                }
            },
            Frame::Arguments { paren, callee, arguments, values } => {
                let mut values = values;
                proof {
                    assert(objects_view(values@.push(v)) =~= objects_view(values@).push(v@));
                }
                values.push(v);
                if values.len() < arguments.len() {
                    let next = &arguments[values.len()];
                    self.push(Frame::Arguments { paren, callee, arguments, values });
                    self.set(Control::Evaluate(next))
                } else {
                    self.invoke(callee, paren, values)
                }
            },
            _ => Action::Continue,
        }
    }

    /// Hands a value to a frame of a statement.
    fn deliver_statement(&mut self, frame: Frame<'a>, v: Object<'a>) -> (r: Action<'a>)
        requires
            old(self).wf(),
            machine::frame_ok(frame@, old(self)@.environment.len()),
            !(frame is BinaryLeft || frame is BinaryRight || frame is Logical || frame is Unary
                || frame is Assign || frame is Callee || frame is Arguments),
        ensures
            final(self).wf(),
            (final(self)@, r@) == delivered(old(self)@, frame@, v@),
    {
        match frame {
            Frame::Discard => self.set(Control::Completed),
            Frame::Print => {
                let output = v.stringify();
                self.control = Control::Completed;
                Action::Print(output)
            },
            Frame::Define { name } => {
                let _ = self.environment.define(self.current, name.lexeme.clone(), v);
                self.set(Control::Completed)
            },
            Frame::Branch { then_branch, else_branch } => {
                if v.is_truthy() {
                    self.set(Control::Execute(then_branch))
                } else {
                    match else_branch {
                        Some(other) => self.set(Control::Execute(other)),
                        None => self.set(Control::Completed),
                    }
                }
            },
            Frame::LoopTest { condition, body } => {
                if v.is_truthy() {
                    self.push(Frame::LoopBody { condition, body });
                    self.set(Control::Execute(body))
                } else {
                    self.environment.set_enclosed_in_loop(self.current, false);
                    self.set(Control::Completed)
                }
            },
            Frame::Returning => self.set(Control::Unwind(Signal::Return(v))),
            other => {
                self.push(other);
                self.set(Control::Completed)
            },
        }
    }

    /// Hands the value of an expression to the frame on top of the stack.
    fn deliver(&mut self, v: Object<'a>) -> (r: Action<'a>)
        requires
            old(self).wf(),
        ensures
            final(self).wf(),
            (final(self)@, r@) == deliver(old(self)@, v@),
    {
        match self.pop() {
            None => {
                self.control = Control::Done;
                Action::Finished
            },
            Some(frame) => {
                if matches!(
                    frame,
                    Frame::BinaryLeft { .. } | Frame::BinaryRight { .. } | Frame::Logical { .. }
                        | Frame::Unary { .. } | Frame::Assign { .. }
                ) {
                    self.deliver_operand(frame, v)
                } else if matches!(frame, Frame::Callee { .. } | Frame::Arguments { .. }) {
                    self.deliver_argument(frame, v)
                } else {
                    self.deliver_statement(frame, v)
                }
            },
        }
    }

    /// Goes on after a statement has run to its end.
    fn proceed(&mut self) -> (r: Action<'a>)
        requires
            old(self).wf(),
        ensures
            final(self).wf(),
            (final(self)@, r@) == proceed(old(self)@),
    {
        match self.pop() {
            None => {
                self.control = Control::Done;
                Action::Finished
            },
            Some(frame) => match frame {
                Frame::Block { statements, next, previous } => {
                    if next < statements.len() {
                        self.push(Frame::Block { statements, next: next + 1, previous });
                        self.set(Control::Execute(&statements[next]))
                    } else {
                        self.current = previous;
                        self.set(Control::Completed)
                    }
                },
                Frame::LoopBody { condition, body } => {
                    self.push(Frame::LoopTest { condition, body });
                    self.set(Control::Evaluate(condition))
                },
                Frame::Invoke => self.set(Control::Value(Object::NONE)),
                _ => self.set(Control::Completed),
            },
        }
    }

    /// Lets a loop act on a signal that has reached it.
    fn catch_in_loop(&mut self, signal: Signal<'a>, condition: &'a Expr, body: &'a Stmt) -> (r:
        Action<'a>)
        requires
            old(self).wf(),
        ensures
            final(self).wf(),
            (final(self)@, r@) == machine::loop_caught(old(self)@, signal@, condition@, body@),
    {
        match signal {
            Signal::Break => {
                self.environment.set_enclosed_in_loop(self.current, false);
                self.set(Control::Completed)
            },
            Signal::Continue => {
                self.push(Frame::LoopTest { condition, body });
                self.set(Control::Evaluate(condition))
            },
            other => {
                self.environment.set_enclosed_in_loop(self.current, false);
                self.set(Control::Unwind(other))
            },
        }
    }

    /// Takes a signal one frame further out.
    fn unwind(&mut self, signal: Signal<'a>) -> (r: Action<'a>)
        requires
            old(self).wf(),
        ensures
            final(self).wf(),
            (final(self)@, r@) == unwind(old(self)@, signal@),
    {
        match self.pop() {
            None => {
                self.control = Control::Done;
                match signal {
                    Signal::Failure(e) => Action::Failed(e),
                    other => Action::Unhandled(other),
                }
            },
            Some(frame) => match frame {
                Frame::Block { statements: _, next: _, previous } => {
                    self.current = previous;
                    self.set(Control::Unwind(signal))
                },
                Frame::LoopTest { condition, body } => self.catch_in_loop(signal, condition, body),
                Frame::LoopBody { condition, body } => self.catch_in_loop(signal, condition, body),
                Frame::Invoke => match signal {
                    Signal::Return(v) => self.set(Control::Value(v)),
                    other => self.set(Control::Unwind(other)),
                },
                _ => self.set(Control::Unwind(signal)),
            },
        }
    }

    /// Takes one step. `answer` is the number that the step before asked
    /// for, if it asked for one; a step that asked for a number and gets
    /// none asks again.
    pub fn step(&mut self, answer: Option<Number>) -> (r: Action<'a>)
        requires
            old(self).wf(),
        ensures
            final(self).wf(),
            (final(self)@, r@) == machine::step(old(self)@, answer),
    {
        let control = self.take();
        match control {
            Control::Evaluate(e) => self.evaluate(e),
            Control::Execute(statement) => self.execute(statement),
            Control::Value(v) => self.deliver(v),
            Control::Completed => self.proceed(),
            Control::Unwind(signal) => self.unwind(signal),
            Control::AwaitParse(text) => match answer {
                Some(n) => self.set(Control::Value(Object::Number(n))),
                None => {
                    self.control = Control::AwaitParse(text);
                    Action::Parse(text.clone())
                },
            },
            Control::AwaitCompute { operation, left, right } => match answer {
                Some(n) => self.set(Control::Value(Object::Number(n))),
                None => {
                    self.control = Control::AwaitCompute { operation, left, right };
                    Action::Compute { operation, left, right }
                },
            },
            Control::Done => Action::Finished,
        }
    }
}

/// What a visit of a node comes to, given the first step of the machine on
/// that node: the step is taken, or, where the step is a failure, the
/// failure is returned and nothing changes.
pub open spec fn visit_outcome<'a>(
    before: State,
    expected: (State, ActionView),
    after: State,
    result: &Result<Action<'a>, LoxError>,
) -> bool {
    match result {
        Ok(action) => (after, action@) == expected,
        Err(e) => after == before && expected == machine::fail_with(before, e@),
    }
}

impl<'a> crate::ast_tools::expr::Visitor<'a, Action<'a>> for Interpreter<'a> {
    open spec fn ready(&self) -> bool {
        self.wf()
    }

    /// A visit takes the first step of evaluating the node.
    open spec fn visits(
        &self,
        node: ExprView,
        after: &Self,
        result: &Result<Action<'a>, LoxError>,
    ) -> bool {
        after.wf() && visit_outcome(self@, begin_evaluate(self@, node), after@, result)
    }

    fn visit_binary_expr(&mut self, left: &'a Expr, operator: &'a Token, right: &'a Expr) -> (r:
        Result<Action<'a>, LoxError>) {
        self.push(Frame::BinaryLeft { operator, right });
        Ok(self.set(Control::Evaluate(left)))
    }

    fn visit_grouping_expr(&mut self, expression: &'a Expr) -> (r: Result<Action<'a>, LoxError>) {
        Ok(self.set(Control::Evaluate(expression)))
    }

    fn visit_literal_expr(&mut self, value: &'a Literal) -> (r: Result<Action<'a>, LoxError>) {
        match value {
            Literal::Number(text) => {
                self.control = Control::AwaitParse(text);
                Ok(Action::Parse(text.clone()))
            },
            Literal::String(text) => Ok(self.set(Control::Value(Object::String(text.clone())))),
            Literal::Nil => Ok(self.set(Control::Value(Object::NONE))),
            Literal::Boolean(b) => Ok(self.set(Control::Value(Object::Boolean(*b)))),
        }
    }

    fn visit_unary_expr(&mut self, operator: &'a Token, right: &'a Expr) -> (r: Result<
        Action<'a>,
        LoxError,
    >) {
        self.push(Frame::Unary { operator });
        Ok(self.set(Control::Evaluate(right)))
    }

    fn visit_variable_expr(&mut self, name: &'a Token) -> (r: Result<Action<'a>, LoxError>) {
        let value = self.environment.get(self.current, name)?;
        Ok(self.set(Control::Value(value)))
    }

    fn visit_assignment_expr(&mut self, name: &'a Token, value: &'a Expr) -> (r: Result<
        Action<'a>,
        LoxError,
    >) {
        self.push(Frame::Assign { name });
        Ok(self.set(Control::Evaluate(value)))
    }

    fn visit_logical_expr(&mut self, left: &'a Expr, operator: &'a Token, right: &'a Expr) -> (r:
        Result<Action<'a>, LoxError>) {
        self.push(Frame::Logical { operator, right });
        Ok(self.set(Control::Evaluate(left)))
    }

    fn visit_call_expr(&mut self, callee: &'a Expr, paren: &'a Token, arguments: &'a Vec<Expr>) -> (r:
        Result<Action<'a>, LoxError>) {
        self.push(Frame::Callee { paren, arguments });
        Ok(self.set(Control::Evaluate(callee)))
    }
}

impl<'a> crate::ast_tools::stmt::Visitor<'a, Action<'a>> for Interpreter<'a> {
    open spec fn ready(&self) -> bool {
        self.wf()
    }

    /// A visit takes the first step of executing the node.
    open spec fn visits(
        &self,
        node: StmtView,
        after: &Self,
        result: &Result<Action<'a>, LoxError>,
    ) -> bool {
        after.wf() && visit_outcome(self@, begin_execute(self@, node), after@, result)
    }

    fn visit_block_stmt(&mut self, statements: &'a Vec<Stmt>) -> (r: Result<Action<'a>, LoxError>) {
        if self.environment.len() >= usize::MAX {
            return Err(LoxError::Error(String::from_str("Too many scopes.")));
        }
        let scope = self.environment.create_enclosing_for_env(self.current);
        self.execute_block(statements, scope);
        Ok(Action::Continue)
    }

    fn visit_expression_stmt(&mut self, expression: &'a Expr) -> (r: Result<Action<'a>, LoxError>) {
        self.push(Frame::Discard);
        Ok(self.set(Control::Evaluate(expression)))
    }

    fn visit_print_stmt(&mut self, expression: &'a Expr) -> (r: Result<Action<'a>, LoxError>) {
        self.push(Frame::Print);
        Ok(self.set(Control::Evaluate(expression)))
    }

    fn visit_var_stmt(&mut self, name: &'a Token, initializer: &'a Option<Expr>) -> (r: Result<
        Action<'a>,
        LoxError,
    >) {
        match initializer {
            Some(init) => {
                self.push(Frame::Define { name });
                Ok(self.set(Control::Evaluate(init)))
            },
            None => {
                self.environment.define(self.current, name.lexeme.clone(), Object::NONE)?;
                Ok(self.set(Control::Completed))
            },
        }
    }

    fn visit_if_statement(
        &mut self,
        condition: &'a Expr,
        then_branch: &'a Stmt,
        else_branch: &'a Option<Stmt>,
    ) -> (r: Result<Action<'a>, LoxError>) {
        self.push(Frame::Branch { then_branch, else_branch });
        Ok(self.set(Control::Evaluate(condition)))
    }

    fn visit_while_statement(&mut self, condition: &'a Expr, body: &'a Box<Stmt>) -> (r: Result<
        Action<'a>,
        LoxError,
    >) {
        self.environment.set_enclosed_in_loop(self.current, true);
        self.push(Frame::LoopTest { condition, body: &**body });
        Ok(self.set(Control::Evaluate(condition)))
    }

    fn visit_break_stmt(&mut self) -> (r: Result<Action<'a>, LoxError>) {
        if self.environment.is_enclosed_in_loop(self.current) {
            return Ok(self.set(Control::Unwind(Signal::Break)));
        }
        Ok(self.set(Control::Completed))
    }

    fn visit_continue_stmt(&mut self) -> (r: Result<Action<'a>, LoxError>) {
        if self.environment.is_enclosed_in_loop(self.current) {
            return Ok(self.set(Control::Unwind(Signal::Continue)));
        }
        Ok(self.set(Control::Completed))
    }

    fn visit_function_stmt(
        &mut self,
        name: &'a Token,
        paramaters: &'a Vec<Token>,
        body: &'a Vec<Stmt>,
    ) -> (r: Result<Action<'a>, LoxError>) {
        let function = Function { name, params: paramaters, body, closure: self.current };
        self.environment.define(self.current, name.lexeme.clone(), Object::Callable(function))?;
        Ok(self.set(Control::Completed))
    }

    fn visit_return_stmt(&mut self, keyword: &'a Token, value: &'a Option<Expr>) -> (r: Result<
        Action<'a>,
        LoxError,
    >) {
        match value {
            Some(e) => {
                self.push(Frame::Returning);
                Ok(self.set(Control::Evaluate(e)))
            },
            None => Ok(self.set(Control::Unwind(Signal::Return(Object::NONE)))),
        }
    }
}

/// Builds the failure of a call with the wrong number of arguments.
fn arity_failure(paren: &Token, expected: usize, got: usize) -> (r: LoxError)
    ensures
        r@ == machine::arity_error(paren@, expected as nat, got as nat),
{
    let mut message = String::from_str("Expected ");
    push_decimal(&mut message, expected);
    push_text(&mut message, " arguments, but got ");
    push_decimal(&mut message, got);
    push_text(&mut message, ".");
    LoxError::Runtime { token: paren.clone(), message }
}

impl<'a> Function<'a> {
    /// Schedules the body to run in a new scope inside the function's own,
    /// with the parameters bound to the arguments. When the body has run,
    /// the value it returned, or `nil`, is handed to what was running.
    #[verifier::loop_isolation(false)]
    pub fn call(&self, interpreter: &mut Interpreter<'a>, args: &Vec<Object<'a>>)
        requires
            old(interpreter).wf(),
        ensures
            final(interpreter).wf(),
            final(interpreter)@ == entered(old(interpreter)@, self@, objects_view(args@)).0,
    {
        if self.closure >= interpreter.environment.len() {
            interpreter.set(failure("The function's scope does not exist."));
            return ;
        }
        if interpreter.environment.len() >= usize::MAX {
            interpreter.set(failure("Too many scopes."));
            return ;
        }
        let ghost start = interpreter.environment@;
        let scope = interpreter.environment.create_enclosing_for_env(self.closure);
        let ghost made = interpreter.environment@;
        let count = if self.params.len() < args.len() {
            self.params.len()
        } else {
            args.len()
        };
        let mut i: usize = 0;
        while i < count
            invariant
                i <= count,
                count <= self.params@.len(),
                count <= args@.len(),
                scope < interpreter.environment@.len(),
                interpreter.environment.wf(),
                interpreter.environment@.len() == made.len(),
                interpreter.environment@ == machine::bound_all(
                    made,
                    scope as nat,
                    self@.params,
                    objects_view(args@),
                    i as nat,
                ),
                interpreter.current == old(interpreter).current,
                interpreter.stack == old(interpreter).stack,
            decreases count - i,
        {
            let _ = interpreter.environment.define(
                scope,
                self.params[i].lexeme.clone(),
                args[i].clone(),
            );
            i += 1;
        }
        interpreter.push(Frame::Invoke);
        interpreter.execute_block(self.body, scope);
    }
}

} // verus!

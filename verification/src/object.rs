//! Runtime values and the operations of the language on them.
use vstd::prelude::*;
use vstd::string::StringExecFns;
use crate::error::{LoxError, LoxErrorView};
use crate::function::{Function, FunctionView};
use crate::number::Number;
use crate::text::push_text;
use crate::token::{Literal, LiteralView, Token, TokenType, TokenView};

verus! {

/// A runtime value.
#[derive(Debug)]
pub enum Object<'a> {
    Boolean(bool),
    NONE,
    Number(Number),
    String(String),
    Callable(Function<'a>),
}

/// The mathematical value of an [`Object`].
pub enum ObjectView {
    Boolean(bool),
    NONE,
    Number(Number),
    String(Seq<char>),
    Callable(FunctionView),
}

impl<'a> View for Object<'a> {
    type V = ObjectView;

    open spec fn view(&self) -> ObjectView {
        match self {
            Object::Boolean(b) => ObjectView::Boolean(*b),
            Object::NONE => ObjectView::NONE,
            Object::Number(n) => ObjectView::Number(*n),
            Object::String(s) => ObjectView::String(s@),
            Object::Callable(f) => ObjectView::Callable(f@),
        }
    }
}

impl<'a> Clone for Object<'a> {
    fn clone(&self) -> (r: Self)
        ensures
            r@ == self@,
    {
        match self {
            Object::Boolean(b) => Object::Boolean(*b),
            Object::NONE => Object::NONE,
            Object::Number(n) => Object::Number(*n),
            Object::String(s) => Object::String(s.clone()),
            Object::Callable(f) => Object::Callable(*f),
        }
    }
}

/// The views of a sequence of values, one for one.
pub open spec fn objects_view<'a>(objects: Seq<Object<'a>>) -> Seq<ObjectView> {
    Seq::new(objects.len(), |i: int| objects[i]@)
}

/// What `print` shows of a value: text, or a number that is formatted where
/// it is written.
#[derive(Debug)]
pub enum Output {
    Text(String),
    Number(Number),
}

/// The mathematical value of an [`Output`].
pub enum OutputView {
    Text(Seq<char>),
    Number(Number),
}

impl View for Output {
    type V = OutputView;

    open spec fn view(&self) -> OutputView {
        match self {
            Output::Text(s) => OutputView::Text(s@),
            Output::Number(n) => OutputView::Number(*n),
        }
    }
}

/// The arithmetic that is carried out on two numbers outside this library.
#[derive(Debug, Clone, Copy, PartialEq, Eq, Structural)]
pub enum Arithmetic {
    Add,
    Subtract,
    Multiply,
    Divide,
}

/// What applying an operator to its operands comes to: a value, a failure,
/// or arithmetic that is still to be carried out.
#[derive(Debug)]
pub enum Applied<'a> {
    Value(Object<'a>),
    Failure(LoxError),
    Compute { operation: Arithmetic, left: Number, right: Number },
}

/// The mathematical value of an [`Applied`].
pub enum AppliedView {
    Value(ObjectView),
    Failure(LoxErrorView),
    Compute { operation: Arithmetic, left: Number, right: Number },
}

impl<'a> View for Applied<'a> {
    type V = AppliedView;

    open spec fn view(&self) -> AppliedView {
        match self {
            Applied::Value(v) => AppliedView::Value(v@),
            Applied::Failure(e) => AppliedView::Failure(e@),
            Applied::Compute { operation, left, right } => AppliedView::Compute {
                operation: *operation,
                left: *left,
                right: *right,
            },
        }
    }
}

/// A value counts as true unless it is `nil` or `false`.
pub open spec fn truthy(v: ObjectView) -> bool {
    match v {
        ObjectView::NONE => false,
        ObjectView::Boolean(b) => b,
        _ => true,
    }
}

/// Two function values are the same if they come from the same declaration
/// and close over the same scope.
pub open spec fn same_function(f: FunctionView, g: FunctionView) -> bool {
    f.name == g.name && f.closure == g.closure
}

/// Equality of values: by variant, never across variants.
pub open spec fn equal(l: ObjectView, r: ObjectView) -> bool {
    match (l, r) {
        (ObjectView::Boolean(a), ObjectView::Boolean(b)) => a == b,
        (ObjectView::NONE, ObjectView::NONE) => true,
        (ObjectView::Number(a), ObjectView::Number(b)) => a.equals(b),
        (ObjectView::String(a), ObjectView::String(b)) => a == b,
        (ObjectView::Callable(f), ObjectView::Callable(g)) => same_function(f, g),
        _ => false,
    }
}

/// Whether `a` comes before `b` in the order of strings: at the first place
/// where they differ `a` has the smaller character, or `a` ends there and `b`
/// goes on.
pub open spec fn text_less(a: Seq<char>, b: Seq<char>) -> bool
    decreases a.len(),
{
    if b.len() == 0 {
        false
    } else if a.len() == 0 {
        true
    } else if a[0] != b[0] {
        (a[0] as u32) < (b[0] as u32)
    } else {
        text_less(a.subrange(1, a.len() as int), b.subrange(1, b.len() as int))
    }
}

/// The value that a literal stands for, unless it is a number, whose value
/// is computed outside this library.
pub open spec fn literal_value(l: LiteralView) -> Option<ObjectView> {
    match l {
        LiteralView::String(s) => Some(ObjectView::String(s)),
        LiteralView::Nil => Some(ObjectView::NONE),
        LiteralView::Boolean(b) => Some(ObjectView::Boolean(b)),
        LiteralView::Number(_) => None,
    }
}

/// What `print` shows of a value.
pub open spec fn shown(v: ObjectView) -> OutputView {
    match v {
        ObjectView::NONE => OutputView::Text("null"@),
        ObjectView::Number(n) => OutputView::Number(n),
        ObjectView::Boolean(b) => OutputView::Text(
            if b {
                "true"@
            } else {
                "false"@
            },
        ),
        ObjectView::String(s) => OutputView::Text(s),
        ObjectView::Callable(f) => OutputView::Text("function: "@ + f.name.lexeme),
    }
}

/// The failure of an operation at the token of its operator.
pub open spec fn runtime_error(token: TokenView, message: Seq<char>) -> LoxErrorView {
    LoxErrorView::Runtime { token, message }
}

/// The failure of an operator whose operands are not what it takes.
pub open spec fn operand_error(operator: TokenView) -> AppliedView {
    AppliedView::Failure(runtime_error(operator, "Operand must be a number."@))
}

/// The result of a prefix operator.
pub open spec fn unary_result(operator: TokenView, right: ObjectView) -> AppliedView {
    if operator.token_type == TokenType::MINUS {
        match right {
            ObjectView::Number(n) => AppliedView::Value(ObjectView::Number(n.negated())),
            _ => operand_error(operator),
        }
    } else if operator.token_type == TokenType::BANG {
        AppliedView::Value(ObjectView::Boolean(!truthy(right)))
    } else {
        operand_error(operator)
    }
}

/// The result of a comparison, given what it says of two numbers and of two
/// strings.
pub open spec fn compared(
    operator: TokenView,
    l: ObjectView,
    r: ObjectView,
    numbers: spec_fn(Number, Number) -> bool,
    texts: spec_fn(Seq<char>, Seq<char>) -> bool,
) -> AppliedView {
    match (l, r) {
        (ObjectView::Number(a), ObjectView::Number(b)) => AppliedView::Value(
            ObjectView::Boolean(numbers(a, b)),
        ),
        (ObjectView::String(a), ObjectView::String(b)) => AppliedView::Value(
            ObjectView::Boolean(texts(a, b)),
        ),
        _ => operand_error(operator),
    }
}

/// The arithmetic on two numbers that an operator asks for.
pub open spec fn computed(
    operator: TokenView,
    operation: Arithmetic,
    l: ObjectView,
    r: ObjectView,
) -> AppliedView {
    match (l, r) {
        (ObjectView::Number(left), ObjectView::Number(right)) => AppliedView::Compute {
            operation,
            left,
            right,
        },
        _ => operand_error(operator),
    }
}

/// The result of an infix operator on two values.
pub open spec fn binary_result(operator: TokenView, l: ObjectView, r: ObjectView) -> AppliedView {
    let kind = operator.token_type;
    if kind == TokenType::BANG_EQUAL {
        AppliedView::Value(ObjectView::Boolean(!equal(l, r)))
    } else if kind == TokenType::EQUAL_EQUAL {
        AppliedView::Value(ObjectView::Boolean(equal(l, r)))
    } else if kind == TokenType::LESS {
        compared(
            operator,
            l,
            r,
            |a: Number, b: Number| a.less(b),
            |a: Seq<char>, b: Seq<char>| text_less(a, b),
        )
    } else if kind == TokenType::LESS_EQUAL {
        compared(
            operator,
            l,
            r,
            |a: Number, b: Number| a.less_equal(b),
            |a: Seq<char>, b: Seq<char>| !text_less(b, a),
        )
    } else if kind == TokenType::GREATER {
        compared(
            operator,
            l,
            r,
            |a: Number, b: Number| b.less(a),
            |a: Seq<char>, b: Seq<char>| text_less(b, a),
        )
    } else if kind == TokenType::GREATER_EQUAL {
        compared(
            operator,
            l,
            r,
            |a: Number, b: Number| b.less_equal(a),
            |a: Seq<char>, b: Seq<char>| !text_less(a, b),
        )
    } else if kind == TokenType::PLUS {
        match (l, r) {
            (ObjectView::String(a), ObjectView::String(b)) => AppliedView::Value(
                ObjectView::String(a + b),
            ),
            _ => computed(operator, Arithmetic::Add, l, r),
        }
    } else if kind == TokenType::MINUS {
        computed(operator, Arithmetic::Subtract, l, r)
    } else if kind == TokenType::STAR {
        computed(operator, Arithmetic::Multiply, l, r)
    } else if kind == TokenType::SLASH {
        match (l, r) {
            (ObjectView::Number(_), ObjectView::Number(b)) => if b.is_zero() {
                AppliedView::Failure(runtime_error(operator, "Divide by zero."@))
            } else {
                computed(operator, Arithmetic::Divide, l, r)
            },
            _ => operand_error(operator),
        }
    } else {
        operand_error(operator)
    }
}

/// `String`'s `<` orders strings by their characters, the first difference
/// deciding, a proper prefix coming first.
#[verifier::external_body]
fn string_less(a: &String, b: &String) -> (r: bool)
    ensures
        r == text_less(a@, b@),
{
    a < b
}

/// Builds the failure of an operation at the token of its operator.
pub fn runtime_failure(operator: &Token, message: &str) -> (r: LoxError)
    ensures
        r@ == runtime_error(operator@, message@),
{
    LoxError::Runtime { token: operator.clone(), message: String::from_str(message) }
}

fn operand_failure<'a>(operator: &Token) -> (r: Applied<'a>)
    ensures
        r@ == operand_error(operator@),
{
    Applied::Failure(runtime_failure(operator, "Operand must be a number."))
}

impl<'a> Object<'a> {
    /// Whether two values are equal.
    pub fn equals(&self, value: &Object<'a>) -> (r: bool)
        ensures
            r == equal(self@, value@),
    {
        match (self, value) {
            (Object::Boolean(l), Object::Boolean(r)) => *l == *r,
            (Object::NONE, Object::NONE) => true,
            (Object::Number(l), Object::Number(r)) => l.equal_to(r),
            (Object::String(l), Object::String(r)) => *l == *r,
            (Object::Callable(f), Object::Callable(g)) => f.closure == g.closure && same_token(
                f.name,
                g.name,
            ),
            _ => false,
        }
    }

    /// Whether the value counts as true.
    pub fn is_truthy(&self) -> (r: bool)
        ensures
            r == truthy(self@),
    {
        match self {
            Object::NONE => false,
            Object::Boolean(b) => *b,
            _ => true,
        }
    }

    /// What `print` shows of the value.
    pub fn stringify(&self) -> (r: Output)
        ensures
            r@ == shown(self@),
    {
        match self {
            Object::NONE => Output::Text(String::from_str("null")),
            Object::Number(n) => Output::Number(*n),
            Object::Boolean(b) => Output::Text(
                if *b {
                    String::from_str("true")
                } else {
                    String::from_str("false")
                },
            ),
            Object::String(s) => Output::Text(s.clone()),
            Object::Callable(f) => {
                let mut text = String::from_str("function: ");
                push_text(&mut text, f.name.lexeme.as_str());
                Output::Text(text)
            },
        }
    }
}

fn same_literal(a: &Literal, b: &Literal) -> (r: bool)
    ensures
        r == (a@ == b@),
{
    match (a, b) {
        (Literal::String(x), Literal::String(y)) => *x == *y,
        (Literal::Number(x), Literal::Number(y)) => *x == *y,
        (Literal::Nil, Literal::Nil) => true,
        (Literal::Boolean(x), Literal::Boolean(y)) => *x == *y,
        _ => false,
    }
}

/// Whether two tokens have the same kind, text, payload and position.
pub fn same_token(a: &Token, b: &Token) -> (r: bool)
    ensures
        r == (a@ == b@),
{
    a.token_type == b.token_type && a.lexeme == b.lexeme && same_literal(&a.literal, &b.literal)
        && a.line == b.line && a.column == b.column
}

/// Applies a prefix operator to a value.
pub fn apply_unary<'a>(operator: &Token, right: Object<'a>) -> (r: Applied<'a>)
    ensures
        r@ == unary_result(operator@, right@),
{
    match operator.token_type {
        TokenType::MINUS => match right {
            Object::Number(n) => Applied::Value(Object::Number(n.negate())),
            _ => operand_failure(operator),
        },
        TokenType::BANG => Applied::Value(Object::Boolean(!right.is_truthy())),
        _ => operand_failure(operator),
    }
}

fn compute<'a>(operator: &Token, operation: Arithmetic, l: Object<'a>, r: Object<'a>) -> (out:
    Applied<'a>)
    ensures
        out@ == computed(operator@, operation, l@, r@),
{
    match (l, r) {
        (Object::Number(left), Object::Number(right)) => Applied::Compute {
            operation,
            left,
            right,
        },
        _ => operand_failure(operator),
    }
}

/// Applies an infix operator to two values. Arithmetic on two numbers is
/// handed back to be carried out.
pub fn apply_binary<'a>(operator: &Token, l: Object<'a>, r: Object<'a>) -> (out: Applied<'a>)
    ensures
        out@ == binary_result(operator@, l@, r@),
{
    match operator.token_type {
        TokenType::BANG_EQUAL => Applied::Value(Object::Boolean(!l.equals(&r))),
        TokenType::EQUAL_EQUAL => Applied::Value(Object::Boolean(l.equals(&r))),
        TokenType::LESS => match (l, r) {
            (Object::Number(a), Object::Number(b)) => Applied::Value(
                Object::Boolean(a.less_than(&b)),
            ),
            (Object::String(a), Object::String(b)) => Applied::Value(
                Object::Boolean(string_less(&a, &b)),
            ),
            _ => operand_failure(operator),
        },
        TokenType::LESS_EQUAL => match (l, r) {
            (Object::Number(a), Object::Number(b)) => Applied::Value(
                Object::Boolean(a.less_or_equal(&b)),
            ),
            (Object::String(a), Object::String(b)) => Applied::Value(
                Object::Boolean(!string_less(&b, &a)),
            ),
            _ => operand_failure(operator),
        },
        TokenType::GREATER => match (l, r) {
            (Object::Number(a), Object::Number(b)) => Applied::Value(
                Object::Boolean(b.less_than(&a)),
            ),
            (Object::String(a), Object::String(b)) => Applied::Value(
                Object::Boolean(string_less(&b, &a)),
            ),
            _ => operand_failure(operator),
        },
        TokenType::GREATER_EQUAL => match (l, r) {
            (Object::Number(a), Object::Number(b)) => Applied::Value(
                Object::Boolean(b.less_or_equal(&a)),
            ),
            (Object::String(a), Object::String(b)) => Applied::Value(
                Object::Boolean(!string_less(&a, &b)),
            ),
            _ => operand_failure(operator),
        },
        TokenType::PLUS => match (l, r) {
            (Object::String(a), Object::String(b)) => {
                let mut joined = a;
                push_text(&mut joined, b.as_str());
                Applied::Value(Object::String(joined))
            },
            (l, r) => compute(operator, Arithmetic::Add, l, r),
        },
        TokenType::MINUS => compute(operator, Arithmetic::Subtract, l, r),
        TokenType::STAR => compute(operator, Arithmetic::Multiply, l, r),
        TokenType::SLASH => match (l, r) {
            (Object::Number(a), Object::Number(b)) => {
                if b.zero() {
                    Applied::Failure(runtime_failure(operator, "Divide by zero."))
                } else {
                    Applied::Compute { operation: Arithmetic::Divide, left: a, right: b }
                }
            },
            _ => operand_failure(operator),
        },
        _ => operand_failure(operator),
    }
}

/// `!x` is true exactly when `x` is `nil` or `false`, so `!!x` is true
/// exactly when `x` is neither.
pub proof fn lemma_double_negation(bang: TokenView, x: ObjectView)
    requires
        bang.token_type == TokenType::BANG,
    ensures
        truthy(x) == (x != ObjectView::NONE && x != ObjectView::Boolean(false)),
        unary_result(bang, x) == AppliedView::Value(ObjectView::Boolean(!truthy(x))),
        unary_result(bang, ObjectView::Boolean(!truthy(x))) == AppliedView::Value(
            ObjectView::Boolean(truthy(x)),
        ),
{
}

/// Equality of values is symmetric.
pub proof fn lemma_equal_symmetric(a: ObjectView, b: ObjectView)
    ensures
        equal(a, b) == equal(b, a),
{
}

/// Every value equals itself, but for a number that is not a number.
pub proof fn lemma_equal_reflexive(a: ObjectView)
    ensures
        equal(a, a) == !(a matches ObjectView::Number(n) && n.is_nan()),
{
}

/// Values of different variants are never equal, and `==` and `!=` give
/// opposite answers.
pub proof fn lemma_equality_operators(equals: TokenView, differs: TokenView, a: ObjectView, b: ObjectView)
    requires
        equals.token_type == TokenType::EQUAL_EQUAL,
        differs.token_type == TokenType::BANG_EQUAL,
    ensures
        binary_result(equals, a, b) == AppliedView::Value(ObjectView::Boolean(equal(a, b))),
        binary_result(differs, a, b) == AppliedView::Value(ObjectView::Boolean(!equal(a, b))),
        (a is Boolean) != (b is Boolean) ==> !equal(a, b),
        (a is NONE) != (b is NONE) ==> !equal(a, b),
        (a is Number) != (b is Number) ==> !equal(a, b),
        (a is String) != (b is String) ==> !equal(a, b),
        (a is Callable) != (b is Callable) ==> !equal(a, b),
{
}

} // verus!

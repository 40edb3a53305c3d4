use lox_interpreter::environment::Environment;
use lox_interpreter::error::LoxError;
use lox_interpreter::number::Number;
use lox_interpreter::object::{apply_binary, apply_unary, same_token, Applied, Arithmetic, Object};
use lox_interpreter::token::{Literal, Token, TokenType};

fn samples() -> Vec<f64> {
    vec![
        0.0,
        -0.0,
        1.0,
        -1.0,
        0.5,
        -0.5,
        2.0,
        1.0e-310,
        -1.0e-310,
        f64::MIN_POSITIVE,
        f64::MAX,
        f64::MIN,
        f64::EPSILON,
        f64::INFINITY,
        f64::NEG_INFINITY,
        f64::NAN,
        -f64::NAN,
        f64::from_bits(0x7ff0_0000_0000_0001),
        f64::from_bits(0xfff8_0000_0000_1234),
        123456789.125,
        -123456789.125,
    ]
}

fn number(value: f64) -> Number {
    Number::from_bits(value.to_bits())
}

#[test]
fn bits_order_like_doubles() {
    for a in samples() {
        for b in samples() {
            let (x, y) = (number(a), number(b));
            assert_eq!(x.equal_to(&y), a == b, "{} == {}", a, b);
            assert_eq!(x.less_than(&y), a < b, "{} < {}", a, b);
            assert_eq!(x.less_or_equal(&y), a <= b, "{} <= {}", a, b);
        }
    }
}

#[test]
fn bits_classify_like_doubles() {
    for a in samples() {
        let x = number(a);
        assert_eq!(x.nan(), a.is_nan(), "{}", a);
        assert_eq!(x.zero(), a == 0.0, "{}", a);
        assert_eq!(x.negate().to_bits(), (-a).to_bits(), "{}", a);
        assert_eq!(x.to_bits(), a.to_bits());
    }
}

#[test]
fn equality_is_symmetric_and_reflexive_but_for_nan() {
    let values: Vec<Object> = vec![
        Object::NONE,
        Object::Boolean(true),
        Object::Boolean(false),
        Object::Number(number(0.0)),
        Object::Number(number(-0.0)),
        Object::Number(number(1.5)),
        Object::Number(number(f64::NAN)),
        Object::String("a".to_string()),
        Object::String("".to_string()),
    ];
    for (i, a) in values.iter().enumerate() {
        for b in values.iter() {
            assert_eq!(a.equals(b), b.equals(a));
        }
        assert_eq!(a.equals(a), i != 6);
    }
    assert!(Object::Number(number(0.0)).equals(&Object::Number(number(-0.0))));
    assert!(!Object::NONE.equals(&Object::Boolean(false)));
}

#[test]
fn double_negation_gives_truthiness() {
    let bang = Token::new(TokenType::BANG, "!".to_string(), Literal::Nil, 1, 1);
    let values: Vec<Object> = vec![
        Object::NONE,
        Object::Boolean(true),
        Object::Boolean(false),
        Object::Number(number(0.0)),
        Object::String("".to_string()),
    ];
    for value in values {
        let truthy = value.is_truthy();
        let Applied::Value(once) = apply_unary(&bang, value) else { panic!() };
        assert!(matches!(once, Object::Boolean(b) if b == !truthy));
        let Applied::Value(twice) = apply_unary(&bang, once) else { panic!() };
        assert!(matches!(twice, Object::Boolean(b) if b == truthy));
    }
}

#[test]
fn arithmetic_is_handed_back() {
    let plus = Token::new(TokenType::PLUS, "+".to_string(), Literal::Nil, 1, 3);
    let one = Object::Number(number(1.0));
    let two = Object::Number(number(2.0));
    match apply_binary(&plus, one, two) {
        Applied::Compute { operation, left, right } => {
            assert_eq!(operation, Arithmetic::Add);
            assert_eq!(left, number(1.0));
            assert_eq!(right, number(2.0));
        }
        other => panic!("{:?}", other),
    }
    let slash = Token::new(TokenType::SLASH, "/".to_string(), Literal::Nil, 1, 3);
    match apply_binary(&slash, Object::Number(number(6.0)), Object::Number(number(3.0))) {
        Applied::Compute { operation, .. } => assert_eq!(operation, Arithmetic::Divide),
        other => panic!("{:?}", other),
    }
}

#[test]
fn an_operator_that_is_none_fails() {
    let comma = Token::new(TokenType::COMMA, ",".to_string(), Literal::Nil, 2, 3);
    match apply_binary(&comma, Object::NONE, Object::NONE) {
        Applied::Failure(LoxError::Runtime { token, message }) => {
            assert_eq!(message, "Operand must be a number.");
            assert_eq!((token.line, token.column), (2, 3));
        }
        other => panic!("{:?}", other),
    }
    assert!(matches!(
        apply_unary(&comma, Object::NONE),
        Applied::Failure(LoxError::Runtime { .. })
    ));
}

#[test]
fn tokens_compare_by_all_their_parts() {
    let a = Token::new(TokenType::IDENTIFIER, "a".to_string(), Literal::Nil, 1, 1);
    assert!(same_token(&a, &a.clone()));
    assert!(!same_token(&a, &Token::new(TokenType::IDENTIFIER, "a".to_string(), Literal::Nil, 1, 2)));
    assert!(!same_token(&a, &Token::new(TokenType::IDENTIFIER, "b".to_string(), Literal::Nil, 1, 1)));
    assert!(!same_token(&a, &Token::new(TokenType::STRING, "a".to_string(), Literal::Nil, 1, 1)));
    assert!(!same_token(
        &a,
        &Token::new(TokenType::IDENTIFIER, "a".to_string(), Literal::Boolean(true), 1, 1)
    ));
}

fn name(text: &str) -> Token {
    Token::new(TokenType::IDENTIFIER, text.to_string(), Literal::Nil, 1, 1)
}

fn text_of(value: Result<Object, LoxError>) -> String {
    match value {
        Ok(Object::String(s)) => s,
        Ok(other) => panic!("{:?}", other),
        Err(LoxError::Runtime { message, .. }) => message,
        Err(other) => panic!("{:?}", other),
    }
}

#[test]
fn scopes_nest() {
    let mut env = Environment::new();
    assert_eq!(env.len(), 1);
    env.define(0, "a".to_string(), Object::String("outer".to_string())).unwrap();
    let inner = env.create_enclosing_for_env(0);
    assert_eq!(inner, 1);
    assert_eq!(text_of(env.get(inner, &name("a"))), "outer");
    env.define(inner, "a".to_string(), Object::String("inner".to_string())).unwrap();
    env.define(inner, "b".to_string(), Object::String("local".to_string())).unwrap();
    assert_eq!(text_of(env.get(inner, &name("a"))), "inner");
    assert_eq!(text_of(env.get(0, &name("a"))), "outer");
    assert_eq!(text_of(env.get(inner, &name("b"))), "local");
    assert_eq!(text_of(env.get(0, &name("b"))), "Undefined variable: b");
}

#[test]
fn assignment_changes_the_nearest_binding_and_makes_none() {
    let mut env = Environment::new();
    env.define(0, "a".to_string(), Object::String("1".to_string())).unwrap();
    let middle = env.create_enclosing_for_env(0);
    let inner = env.create_enclosing_for_env(middle);
    env.assign(inner, &name("a"), Object::String("2".to_string())).unwrap();
    assert_eq!(text_of(env.get(0, &name("a"))), "2");
    env.define(middle, "a".to_string(), Object::String("m".to_string())).unwrap();
    env.assign(inner, &name("a"), Object::String("3".to_string())).unwrap();
    assert_eq!(text_of(env.get(middle, &name("a"))), "3");
    assert_eq!(text_of(env.get(0, &name("a"))), "2");
    match env.assign(inner, &name("zz"), Object::NONE) {
        Err(LoxError::Runtime { token, message }) => {
            assert_eq!(message, "Undefined variable: zz");
            assert_eq!(token.lexeme, "zz");
        }
        other => panic!("{:?}", other),
    }
    assert_eq!(text_of(env.get(inner, &name("zz"))), "Undefined variable: zz");
}

#[test]
fn redefinition_replaces_the_value() {
    let mut env = Environment::new();
    env.define(0, "a".to_string(), Object::String("1".to_string())).unwrap();
    env.define(0, "b".to_string(), Object::String("b".to_string())).unwrap();
    env.define(0, "a".to_string(), Object::String("2".to_string())).unwrap();
    assert_eq!(text_of(env.get(0, &name("a"))), "2");
    assert_eq!(text_of(env.get(0, &name("b"))), "b");
}

#[test]
fn loop_flag_is_inherited_when_a_scope_is_made() {
    let mut env = Environment::new();
    assert!(!env.is_enclosed_in_loop(0));
    let before = env.create_enclosing_for_env(0);
    env.set_enclosed_in_loop(0, true);
    let after = env.create_enclosing_for_env(0);
    assert!(!env.is_enclosed_in_loop(before));
    assert!(env.is_enclosed_in_loop(after));
    env.set_enclosed_in_loop(0, false);
    assert!(env.is_enclosed_in_loop(after));
    assert!(!env.is_enclosed_in_loop(0));
}

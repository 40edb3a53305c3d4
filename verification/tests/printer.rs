use lox_interpreter::ast_tools::{ASTPrinter, Expr};
use lox_interpreter::token::{Literal, Token, TokenType};

fn number(text: &str) -> Expr {
    Expr::Literal { value: Literal::Number(text.to_string()) }
}

fn token(kind: TokenType, lexeme: &str) -> Token {
    Token::new(kind, lexeme.to_string(), Literal::Nil, 1, 0)
}

#[test]
fn test_print_tree() {
    let expression = Expr::Binary {
        left: Box::new(Expr::Unary {
            operator: Token::new(
                TokenType::MINUS,
                "-".to_string(),
                Literal::String("-".to_string()),
                1,
                0,
            ),
            right: Box::new(Expr::Literal { value: Literal::Number("123".to_string()) }),
        }),
        operator: Token::new(
            TokenType::STAR,
            "*".to_string(),
            Literal::String("*".to_string()),
            1,
            0,
        ),
        right: Box::new(Expr::Grouping {
            expression: Box::new(Expr::Literal { value: Literal::Number("45.67".to_string()) }),
        }),
    };
    let mut printer = ASTPrinter;
    assert_eq!(printer.print(expression).unwrap(), "(* (- 123) (group 45.67))");
}

#[test]
fn prints_literals_and_names() {
    let mut printer = ASTPrinter::new();
    assert_eq!(printer.print(number("1.50")).unwrap(), "1.50");
    assert_eq!(
        printer.print(Expr::Literal { value: Literal::String("hi".to_string()) }).unwrap(),
        "hi"
    );
    assert_eq!(printer.print(Expr::Literal { value: Literal::Boolean(true) }).unwrap(), "true");
    assert_eq!(printer.print(Expr::Literal { value: Literal::Boolean(false) }).unwrap(), "false");
    assert_eq!(printer.print(Expr::Literal { value: Literal::Nil }).unwrap(), "none");
    assert_eq!(
        printer.print(Expr::Variable { name: token(TokenType::IDENTIFIER, "x") }).unwrap(),
        "x"
    );
}

#[test]
fn prints_assignments_logic_and_calls() {
    let mut printer = ASTPrinter::new();
    let assign = Expr::Assign {
        name: token(TokenType::IDENTIFIER, "a"),
        value: Box::new(number("2")),
    };
    assert_eq!(printer.print(assign).unwrap(), "(a 2)");
    let logical = Expr::Logical {
        left: Box::new(Expr::Literal { value: Literal::Boolean(true) }),
        operator: token(TokenType::OR, "or"),
        right: Box::new(Expr::Literal { value: Literal::Nil }),
    };
    assert_eq!(printer.print(logical).unwrap(), "(or true none)");
    let call = Expr::Call {
        callee: Box::new(Expr::Variable { name: token(TokenType::IDENTIFIER, "f") }),
        paren: token(TokenType::RIGHT_PAREN, ")"),
        arguments: vec![number("1"), number("2"), number("3")],
    };
    assert_eq!(printer.print(call).unwrap(), "(call f 1 2 3)");
    let bare = Expr::Call {
        callee: Box::new(Expr::Variable { name: token(TokenType::IDENTIFIER, "g") }),
        paren: token(TokenType::RIGHT_PAREN, ")"),
        arguments: vec![],
    };
    assert_eq!(printer.print(bare).unwrap(), "(call g)");
}

#[test]
fn parenthesize_puts_a_space_before_each_expression() {
    let mut printer = ASTPrinter::new();
    let one = number("1");
    let two = number("2");
    assert_eq!(
        printer.parenthesize("+".to_string(), vec![&one, &two]).unwrap(),
        "(+ 1 2)"
    );
    assert_eq!(printer.parenthesize("none".to_string(), vec![]).unwrap(), "(none)");
}

#[test]
fn literal_text() {
    assert_eq!(Literal::Number("7".to_string()).to_string(), "7");
    assert_eq!(Literal::Nil.to_string(), "none");
    assert_eq!(Literal::Boolean(true).to_string(), "true");
    assert_eq!(Literal::String("s".to_string()).to_string(), "s");
}

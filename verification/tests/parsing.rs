use lox_interpreter::ast_tools::{ASTPrinter, Expr, Stmt};
use lox_interpreter::error::LoxError;
use lox_interpreter::parser::{desugar, Parser};
use lox_interpreter::scanner::Scanner;
use lox_interpreter::token::{Literal, Token, TokenType};

fn tokens_of(source: &str) -> Vec<Token> {
    Scanner::new(source.as_bytes().to_vec()).scan_tokens().unwrap()
}

fn parse(source: &str) -> Vec<Stmt> {
    let mut parser = Parser::new(tokens_of(source));
    let statements = parser.parse().unwrap();
    assert!(parser.diagnostics().is_empty());
    statements
}

fn errors(source: &str) -> Vec<String> {
    let mut parser = Parser::new(tokens_of(source));
    assert!(matches!(parser.parse(), Err(LoxError::Parse)));
    parser.diagnostics().iter().map(|d| d.to_line()).collect()
}

fn show(expr: Expr) -> String {
    ASTPrinter::new().print(expr).unwrap()
}

/// The printed form of the expression of a source that is one expression
/// statement.
fn tree(source: &str) -> String {
    let mut statements = parse(source);
    assert_eq!(statements.len(), 1);
    match statements.remove(0) {
        Stmt::Expression { expression } => show(expression),
        other => panic!("{:?}", other),
    }
}

#[test]
fn factor_binds_tighter_than_term() {
    assert_eq!(tree("1 + 2 * 3;"), "(+ 1 (* 2 3))");
    assert_eq!(tree("1 * 2 + 3;"), "(+ (* 1 2) 3)");
    assert_eq!(tree("1 - 2 / 3 - 4;"), "(- (- 1 (/ 2 3)) 4)");
}

#[test]
fn operators_of_one_level_group_to_the_left() {
    assert_eq!(tree("1 - 2 - 3;"), "(- (- 1 2) 3)");
    assert_eq!(tree("8 / 4 / 2;"), "(/ (/ 8 4) 2)");
    assert_eq!(tree("1 < 2 < 3;"), "(< (< 1 2) 3)");
    assert_eq!(tree("1 == 2 != 3;"), "(!= (== 1 2) 3)");
}

#[test]
fn all_levels_in_one_expression() {
    assert_eq!(
        tree("a = b or c and d == e < f + g * -h;"),
        "(a (or b (and c (== d (< e (+ f (* g (- h))))))))"
    );
    assert_eq!(
        tree("-a * b + c < d == e and f or g;"),
        "(or (and (== (< (+ (* (- a) b) c) d) e) f) g)"
    );
}

#[test]
fn logical_operators_chain() {
    assert_eq!(tree("a or b or c;"), "(or (or a b) c)");
    assert_eq!(tree("a and b and c;"), "(and (and a b) c)");
    assert_eq!(tree("a or b and c or d;"), "(or (or a (and b c)) d)");
}

#[test]
fn grouping_overrides_precedence() {
    assert_eq!(tree("(1 + 2) * 3;"), "(* (group (+ 1 2)) 3)");
    assert_eq!(tree("((1));"), "(group (group 1))");
}

#[test]
fn unary_operators_nest() {
    assert_eq!(tree("!!a;"), "(! (! a))");
    assert_eq!(tree("--1;"), "(- (- 1))");
    assert_eq!(tree("-a.b;".replace(".b", "").as_str()), "(- a)");
    assert_eq!(tree("1 - -2;"), "(- 1 (- 2))");
}

#[test]
fn assignment_groups_to_the_right() {
    assert_eq!(tree("a = b = 3;"), "(a (b 3))");
}

#[test]
fn calls_chain_and_take_arguments() {
    assert_eq!(tree("f();"), "(call f)");
    assert_eq!(tree("f(1, a + 2)(3)();"), "(call (call (call f 1 (+ a 2)) 3))");
    assert_eq!(tree("-f(1);"), "(- (call f 1))");
}

#[test]
fn literals_carry_the_payload_of_their_token() {
    assert_eq!(tree("\"text\";"), "text");
    assert_eq!(tree("12.50;"), "12.50");
    assert_eq!(tree("true;"), "true");
    assert_eq!(tree("false;"), "false");
    assert_eq!(tree("nil;"), "none");
}

#[test]
fn statements_of_every_kind() {
    let statements = parse(
        "var a; var b = 1; print b; { a; } if (a) b; else a; while (a) b; fun f(x, y) { return x; } return; break; continue;",
    );
    assert_eq!(statements.len(), 10);
    assert!(matches!(&statements[0], Stmt::Var { name, initializer: None } if name.lexeme == "a"));
    assert!(matches!(&statements[1], Stmt::Var { name, initializer: Some(_) } if name.lexeme == "b"));
    assert!(matches!(&statements[2], Stmt::Print { .. }));
    assert!(matches!(&statements[3], Stmt::Block { statements } if statements.len() == 1));
    match &statements[4] {
        Stmt::If { else_branch, .. } => assert!(else_branch.is_some()),
        other => panic!("{:?}", other),
    }
    assert!(matches!(&statements[5], Stmt::While { .. }));
    match &statements[6] {
        Stmt::Function { name, paramaters, body } => {
            assert_eq!(name.lexeme, "f");
            assert_eq!(paramaters.len(), 2);
            assert_eq!(paramaters[1].lexeme, "y");
            assert_eq!(body.len(), 1);
            assert!(matches!(&body[0], Stmt::Return { keyword, value: Some(_) } if keyword.lexeme == "return"));
        }
        other => panic!("{:?}", other),
    }
    assert!(matches!(&statements[7], Stmt::Return { value: None, .. }));
    assert!(matches!(&statements[8], Stmt::Break));
    assert!(matches!(&statements[9], Stmt::Continue));
}

#[test]
fn else_belongs_to_the_nearest_if() {
    let statements = parse("if (a) if (b) c; else d;");
    match &statements[0] {
        Stmt::If { then_branch, else_branch, .. } => {
            assert!(else_branch.is_none());
            match &**then_branch {
                Stmt::If { else_branch, .. } => assert!(else_branch.is_some()),
                other => panic!("{:?}", other),
            }
        }
        other => panic!("{:?}", other),
    }
}

#[test]
fn for_becomes_a_while_in_a_block() {
    let mut statements = parse("for (var i = 0; i < 3; i = i + 1) print i;");
    assert_eq!(statements.len(), 1);
    let Stmt::Block { statements: mut outer } = statements.remove(0) else { panic!() };
    assert_eq!(outer.len(), 2);
    let looped = outer.remove(1);
    assert!(matches!(&outer[0], Stmt::Var { name, .. } if name.lexeme == "i"));
    let Stmt::While { condition, body } = looped else { panic!() };
    assert_eq!(show(condition), "(< i 3)");
    let Stmt::Block { statements: mut inner } = *body else { panic!() };
    assert_eq!(inner.len(), 2);
    assert!(matches!(&inner[0], Stmt::Print { .. }));
    let Stmt::Expression { expression } = inner.remove(1) else { panic!() };
    assert_eq!(show(expression), "(i (+ i 1))");
}

#[test]
fn for_without_clauses_loops_on_true() {
    let mut statements = parse("for (;;) print 1;");
    let Stmt::While { condition, body } = statements.remove(0) else { panic!() };
    assert!(matches!(condition, Expr::Literal { value: Literal::Boolean(true) }));
    assert!(matches!(*body, Stmt::Print { .. }));
}

#[test]
fn for_with_an_expression_as_initializer() {
    let mut statements = parse("for (i = 0; i < 2;) f();");
    let Stmt::Block { statements: outer } = statements.remove(0) else { panic!() };
    assert!(matches!(&outer[0], Stmt::Expression { .. }));
    match &outer[1] {
        Stmt::While { body, .. } => assert!(matches!(&**body, Stmt::Expression { .. })),
        other => panic!("{:?}", other),
    }
}

#[test]
fn desugaring_a_for_by_hand() {
    let body = Stmt::Print { expression: Expr::Literal { value: Literal::Nil } };
    assert!(matches!(desugar(None, None, None, body), Stmt::While { .. }));
    let body = Stmt::Break;
    let incr = Expr::Literal { value: Literal::Nil };
    match desugar(None, None, Some(incr), body) {
        Stmt::While { body, .. } => match *body {
            Stmt::Block { statements } => {
                assert!(matches!(&statements[0], Stmt::Break));
                assert!(matches!(&statements[1], Stmt::Expression { .. }));
            }
            other => panic!("{:?}", other),
        },
        other => panic!("{:?}", other),
    }
}

#[test]
fn missing_expression_is_reported_at_the_token() {
    assert_eq!(errors("print ;"), vec!["[column: 7, line 1] Error  at ';': Expected Expression."]);
    assert_eq!(
        errors("print 1 +"),
        vec!["[column: 10, line 1] Error  at end of file: Expected Expression."]
    );
}

#[test]
fn missing_semicolon_is_reported() {
    assert_eq!(
        errors("print 1"),
        vec!["[column: 8, line 1] Error  at end of file: Expected ';' after value."]
    );
    assert_eq!(
        errors("var a = 1 print a;"),
        vec!["[column: 11, line 1] Error  at 'print': Expected ';' after variable name."]
    );
}

#[test]
fn invalid_assignment_target_is_reported_at_the_equals_sign() {
    assert_eq!(
        errors("1 = 2;"),
        vec!["[column: 3, line 1] Error  at '=': Invalid assignment target."]
    );
    assert_eq!(
        errors("a + b = c;"),
        vec!["[column: 7, line 1] Error  at '=': Invalid assignment target."]
    );
}

#[test]
fn missing_closing_parenthesis_is_reported() {
    assert_eq!(
        errors("(1 + 2;"),
        vec!["[column: 7, line 1] Error  at ';': Expected ')' after expression."]
    );
    assert_eq!(
        errors("f(1;"),
        vec!["[column: 4, line 1] Error  at ';': Expected ')' after arguments."]
    );
}

#[test]
fn parser_resumes_after_each_failed_declaration() {
    assert_eq!(
        errors("var = 1;\nprint 2;\nprint ;\nvar b = ;\nprint 3;"),
        vec![
            "[column: 5, line 1] Error  at '=': Expected variable name.",
            "[column: 7, line 3] Error  at ';': Expected Expression.",
            "[column: 9, line 4] Error  at ';': Expected Expression.",
        ]
    );
}

#[test]
fn parser_resumes_at_a_keyword_that_starts_a_statement() {
    assert_eq!(
        errors("1 + + 2 print 3 var x = ; print ; print 4;"),
        vec![
            "[column: 5, line 1] Error  at '+': Expected Expression.",
            "[column: 17, line 1] Error  at 'var': Expected ';' after value.",
            "[column: 33, line 1] Error  at ';': Expected Expression.",
        ]
    );
}

#[test]
fn statement_messages() {
    assert_eq!(errors("if a) b;"), vec!["[column: 4, line 1] Error  at 'a': Expected '(' after if."]);
    assert_eq!(
        errors("if (a b;"),
        vec!["[column: 7, line 1] Error  at 'b': Expected ')' after if condition."]
    );
    assert_eq!(
        errors("while a) b;"),
        vec!["[column: 7, line 1] Error  at 'a': Expect '(' after 'while'."]
    );
    assert_eq!(
        errors("while (a b;"),
        vec!["[column: 10, line 1] Error  at 'b': Expect ')' after condition."]
    );
    assert_eq!(errors("for a;"), vec!["[column: 5, line 1] Error  at 'a': Expect '(' after 'for'."]);
    assert_eq!(
        errors("for (;a b;) c;"),
        vec![
            "[column: 9, line 1] Error  at 'b': Expected ';' after loop condition.",
            "[column: 11, line 1] Error  at ')': Expected Expression.",
        ]
    );
    assert_eq!(
        errors("for (;;a b) c;"),
        vec!["[column: 10, line 1] Error  at 'b': Expected ')' after for clauses."]
    );
    assert_eq!(errors("break"), vec!["[column: 6, line 1] Error  at end of file: Expected ';' after break"]);
    assert_eq!(
        errors("continue 1;"),
        vec!["[column: 10, line 1] Error  at '1': Expected ';' after continue."]
    );
    assert_eq!(
        errors("return 1 2;"),
        vec!["[column: 10, line 1] Error  at '2': Expect ';' after retrun."]
    );
    assert_eq!(errors("{ a;"), vec!["[column: 5, line 1] Error  at end of file: Expected '}' after blcok."]);
}

#[test]
fn function_messages() {
    assert_eq!(errors("fun (a) {}"), vec!["[column: 5, line 1] Error  at '(': Expect function name."]);
    assert_eq!(
        errors("fun f a) {}"),
        vec!["[column: 7, line 1] Error  at 'a': Expected '(' after functoin name."]
    );
    assert_eq!(errors("fun f(1) {}"), vec!["[column: 7, line 1] Error  at '1': Expected paramater."]);
    assert_eq!(
        errors("fun f(a b) {}"),
        vec!["[column: 9, line 1] Error  at 'b': Expected ')' after paramaters"]
    );
    assert_eq!(
        errors("fun f(a) print a;"),
        vec!["[column: 10, line 1] Error  at 'print': Expected '{' after function declaration."]
    );
}

fn many(count: usize, item: &str) -> String {
    let mut list = String::new();
    for i in 0..count {
        if i > 0 {
            list.push_str(", ");
        }
        list.push_str(item);
    }
    list
}

#[test]
fn up_to_255_arguments_are_accepted() {
    let mut statements = parse(&format!("f({});", many(255, "1")));
    let Stmt::Expression { expression: Expr::Call { arguments, .. } } = statements.remove(0) else {
        panic!()
    };
    assert_eq!(arguments.len(), 255);
}

#[test]
fn more_than_255_arguments_are_reported_and_taken() {
    let source = format!("f({});", many(256, "1"));
    let mut parser = Parser::new(tokens_of(&source));
    assert!(matches!(parser.parse(), Err(LoxError::Parse)));
    assert_eq!(parser.diagnostics().len(), 1);
    assert_eq!(parser.diagnostics()[0].message, "Can't have mroe than 255 arguments");
    assert_eq!(parser.diagnostics()[0].position, " at '1'");
}

#[test]
fn more_than_255_parameters_are_reported_and_taken() {
    let source = format!("fun f({}) {{}}", many(257, "p"));
    let mut parser = Parser::new(tokens_of(&source));
    assert!(matches!(parser.parse(), Err(LoxError::Parse)));
    assert_eq!(parser.diagnostics().len(), 2);
    assert_eq!(parser.diagnostics()[0].message, "Cannot have more than 255 params.");
}

#[test]
fn error_reported_by_hand() {
    let mut parser = Parser::new(tokens_of("a"));
    let at = Token::new(TokenType::IDENTIFIER, "a".to_string(), Literal::Nil, 3, 4);
    assert!(matches!(parser.error(&at, "Oops."), LoxError::Parse));
    assert_eq!(parser.diagnostics()[0].to_line(), "[column: 4, line 3] Error  at 'a': Oops.");
}

#[test]
fn empty_program() {
    assert!(parse("").is_empty());
    assert!(parse("// nothing\n").is_empty());
}

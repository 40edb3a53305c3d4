use lox_interpreter::ast_tools::Stmt;
use lox_interpreter::function::Function;
use lox_interpreter::token::{Literal, Token, TokenType};
use lox_interpreter::error::LoxError;
use lox_interpreter::interpreter::{Action, Interpreter, Signal};
use lox_interpreter::number::Number;
use lox_interpreter::object::{Arithmetic, Object, Output};
use lox_interpreter::Lox;

/// How a run ended.
#[derive(Debug, PartialEq)]
enum End {
    Finished,
    Runtime { lexeme: String, message: String },
    Failed(String),
    Return(String),
    Break,
    Continue,
    NoProgram(String),
    StepLimit,
}

fn show(output: &Output) -> String {
    match output {
        Output::Text(text) => text.clone(),
        Output::Number(n) => format!("{}", f64::from_bits(n.to_bits())),
    }
}

fn compute(operation: Arithmetic, left: Number, right: Number) -> Number {
    let l = f64::from_bits(left.to_bits());
    let r = f64::from_bits(right.to_bits());
    let value = match operation {
        Arithmetic::Add => l + r,
        Arithmetic::Subtract => l - r,
        Arithmetic::Multiply => l * r,
        Arithmetic::Divide => l / r,
    };
    Number::from_bits(value.to_bits())
}

fn drive(statements: &Vec<Stmt>, limit: usize) -> (Vec<String>, End) {
    let mut interpreter = Interpreter::new();
    interpreter.interpret(statements);
    let mut lines = Vec::new();
    let mut answer: Option<Number> = None;
    for _ in 0..limit {
        match interpreter.step(answer.take()) {
            Action::Continue => {}
            Action::Print(output) => lines.push(show(&output)),
            Action::Parse(text) => {
                answer = Some(Number::from_bits(text.parse::<f64>().unwrap().to_bits()));
            }
            Action::Compute { operation, left, right } => {
                answer = Some(compute(operation, left, right));
            }
            Action::Finished => return (lines, End::Finished),
            Action::Failed(LoxError::Runtime { token, message }) => {
                return (lines, End::Runtime { lexeme: token.lexeme, message });
            }
            Action::Failed(other) => return (lines, End::Failed(format!("{:?}", other))),
            Action::Unhandled(Signal::Return(value)) => {
                return (lines, End::Return(show(&value.stringify())));
            }
            Action::Unhandled(Signal::Break) => return (lines, End::Break),
            Action::Unhandled(Signal::Continue) => return (lines, End::Continue),
            Action::Unhandled(Signal::Failure(e)) => {
                return (lines, End::Failed(format!("{:?}", e)));
            }
        }
    }
    (lines, End::StepLimit)
}

fn run(source: &str) -> (Vec<String>, End) {
    let reading = Lox::new().run(source.as_bytes().to_vec());
    match reading.program {
        Ok(statements) => drive(&statements, 1_000_000),
        Err(e) => (Vec::new(), End::NoProgram(format!("{:?}", e))),
    }
}

fn prints(source: &str) -> Vec<String> {
    let (lines, end) = run(source);
    assert_eq!(end, End::Finished, "{}", source);
    lines
}

fn fails(source: &str) -> (String, String) {
    let (lines, end) = run(source);
    assert!(lines.is_empty(), "{}", source);
    match end {
        End::Runtime { lexeme, message } => (lexeme, message),
        other => panic!("{}: {:?}", source, other),
    }
}

#[test]
fn arithmetic_follows_precedence() {
    assert_eq!(prints("print 1 + 2 * 3;"), vec!["7"]);
}

#[test]
fn strings_concatenate() {
    assert_eq!(prints("print \"ab\" + \"cd\";"), vec!["abcd"]);
}

#[test]
fn inner_scope_shadows_without_changing_outer() {
    assert_eq!(prints("var a = 1; { var a = 2; print a; } print a;"), vec!["2", "1"]);
}

#[test]
fn for_loop_counts() {
    assert_eq!(prints("for (var i = 0; i < 3; i = i + 1) print i;"), vec!["0", "1", "2"]);
}

#[test]
fn closure_keeps_its_scope() {
    assert_eq!(
        prints(
            "fun mk(x){ fun add(y){ return x + y; } return add; } var f = mk(10); print f(5); print f(7);"
        ),
        vec!["15", "17"]
    );
}

#[test]
fn recursion_computes_fibonacci() {
    assert_eq!(
        prints("fun fib(n){ if (n < 2) return n; return fib(n-1) + fib(n-2); } print fib(10);"),
        vec!["55"]
    );
}

#[test]
fn adding_number_and_string_fails_at_plus() {
    assert_eq!(
        fails("print 1 + \"x\";"),
        ("+".to_string(), "Operand must be a number.".to_string())
    );
}

#[test]
fn division_by_zero_fails_at_slash() {
    assert_eq!(fails("print 1 / 0;"), ("/".to_string(), "Divide by zero.".to_string()));
}

#[test]
fn undefined_variable_fails() {
    assert_eq!(
        fails("print undefined_var;"),
        ("undefined_var".to_string(), "Undefined variable: undefined_var".to_string())
    );
}

#[test]
fn wrong_argument_count_fails() {
    assert_eq!(
        fails("fun f(a){} f(1, 2);"),
        (")".to_string(), "Expected 1 arguments, but got 2.".to_string())
    );
}

#[test]
fn calling_a_number_fails() {
    assert_eq!(fails("var x = 1; x();"), (")".to_string(), "Can only call functions.".to_string()));
}

#[test]
fn assignment_to_undefined_variable_fails() {
    assert_eq!(
        fails("x = 1;"),
        ("x".to_string(), "Undefined variable: x".to_string())
    );
}

#[test]
fn assignment_yields_the_assigned_value() {
    assert_eq!(prints("var a = 1; print a = 2; print a;"), vec!["2", "2"]);
}

#[test]
fn break_and_continue_outside_a_loop_do_nothing() {
    assert_eq!(prints("break; continue; print 1;"), vec!["1"]);
}

#[test]
fn return_outside_a_function_is_unhandled() {
    let (lines, end) = run("print 1; return 5; print 2;");
    assert_eq!(lines, vec!["1"]);
    assert_eq!(end, End::Return("5".to_string()));
}

#[test]
fn return_without_value_gives_nil() {
    assert_eq!(prints("fun f() { return; } print f();"), vec!["null"]);
}

#[test]
fn function_without_return_gives_nil() {
    assert_eq!(prints("fun f() { 1; } print f();"), vec!["null"]);
}

#[test]
fn break_leaves_the_loop() {
    assert_eq!(
        prints("var i = 0; while (true) { if (i == 3) break; print i; i = i + 1; } print \"done\";"),
        vec!["0", "1", "2", "done"]
    );
}

#[test]
fn continue_goes_to_the_next_round() {
    assert_eq!(
        prints(
            "var i = 0; while (i < 5) { i = i + 1; if (i == 2) continue; if (i == 4) continue; print i; }"
        ),
        vec!["1", "3", "5"]
    );
}

#[test]
fn return_leaves_a_loop_inside_a_function() {
    assert_eq!(
        prints("fun f() { var i = 0; while (true) { if (i == 2) return i; i = i + 1; } } print f();"),
        vec!["2"]
    );
}

#[test]
fn closure_mutates_the_captured_scope() {
    assert_eq!(
        prints(
            "fun counter() { var n = 0; fun next() { n = n + 1; return n; } return next; } \
             var c = counter(); print c(); print c(); var d = counter(); print d(); print c();"
        ),
        vec!["1", "2", "1", "3"]
    );
}

#[test]
fn block_binding_is_gone_after_the_block() {
    assert_eq!(
        fails("{ var inner = 1; } print inner;"),
        ("inner".to_string(), "Undefined variable: inner".to_string())
    );
}

#[test]
fn logical_operators_short_circuit_and_keep_the_value() {
    assert_eq!(
        prints(
            "print nil or \"x\"; print 1 or 2; print nil and 1; print 1 and 2; \
             print false or false or 3; print 1 and 2 and 3;"
        ),
        vec!["x", "1", "null", "2", "3", "3"]
    );
}

#[test]
fn logical_or_does_not_evaluate_the_right_side_when_true() {
    assert_eq!(prints("var a = 1; true or (a = 2); print a;"), vec!["1"]);
}

#[test]
fn bang_negates_truthiness() {
    assert_eq!(
        prints("print !nil; print !false; print !0; print !\"\"; print !!nil; print !!1; print !true;"),
        vec!["true", "true", "false", "false", "false", "true", "false"]
    );
}

#[test]
fn unary_minus_needs_a_number() {
    assert_eq!(fails("print -\"a\";"), ("-".to_string(), "Operand must be a number.".to_string()));
    assert_eq!(prints("print -3; print --3; print -0.5;"), vec!["-3", "3", "-0.5"]);
}

#[test]
fn equality_by_variant() {
    assert_eq!(
        prints(
            "print 1 == 1; print 1 == 2; print \"a\" == \"a\"; print \"a\" == \"b\"; \
             print nil == nil; print nil == false; print 1 == \"1\"; print true == true; \
             print 1 != 1; print 1 != 2; print 0 == -0;"
        ),
        vec![
            "true", "false", "true", "false", "true", "false", "false", "true", "false", "true",
            "true"
        ]
    );
}

#[test]
fn a_function_equals_itself() {
    assert_eq!(
        prints("fun f() {} fun g() {} var h = f; print f == f; print f == h; print f == g;"),
        vec!["true", "true", "false"]
    );
}

#[test]
fn numbers_compare_numerically() {
    assert_eq!(
        prints(
            "print 1 < 2; print 2 < 1; print 1 <= 1; print 2 > 1; print 1 >= 2; print -1 < 0; \
             print -2 < -1; print 0.5 < 0.25; print 10 > 9; print -1 > -2;"
        ),
        vec!["true", "false", "true", "true", "false", "true", "true", "false", "true", "true"]
    );
}

#[test]
fn strings_compare_lexicographically() {
    assert_eq!(
        prints(
            "print \"a\" < \"b\"; print \"b\" < \"a\"; print \"a\" < \"ab\"; print \"ab\" <= \"ab\"; \
             print \"b\" > \"ab\"; print \"a\" >= \"b\"; print \"\" < \"a\"; print \"Z\" < \"a\";"
        ),
        vec!["true", "false", "true", "true", "true", "false", "true", "true"]
    );
}

#[test]
fn comparing_number_and_string_fails() {
    assert_eq!(fails("print 1 < \"a\";"), ("<".to_string(), "Operand must be a number.".to_string()));
    assert_eq!(fails("print nil >= 1;"), (">=".to_string(), "Operand must be a number.".to_string()));
}

#[test]
fn arithmetic_needs_numbers() {
    assert_eq!(fails("print \"a\" - 1;"), ("-".to_string(), "Operand must be a number.".to_string()));
    assert_eq!(fails("print true * 2;"), ("*".to_string(), "Operand must be a number.".to_string()));
    assert_eq!(fails("print nil / 2;"), ("/".to_string(), "Operand must be a number.".to_string()));
    assert_eq!(prints("print 7 - 2; print 3 * 4; print 9 / 2; print 0.1 + 0.2;"), vec![
        "5",
        "12",
        "4.5",
        "0.30000000000000004"
    ]);
}

#[test]
fn division_by_negative_zero_fails() {
    assert_eq!(fails("print 1 / -0;"), ("/".to_string(), "Divide by zero.".to_string()));
}

#[test]
fn values_print_in_their_own_form() {
    assert_eq!(
        prints("fun f() {} print nil; print true; print false; print \"text\"; print 2.50; print f;"),
        vec!["null", "true", "false", "text", "2.5", "function: f"]
    );
}

#[test]
fn var_without_initializer_is_nil() {
    assert_eq!(prints("var a; print a;"), vec!["null"]);
}

#[test]
fn redefinition_overwrites() {
    assert_eq!(prints("var a = 1; var a = 2; print a;"), vec!["2"]);
}

#[test]
fn if_chooses_by_truthiness() {
    assert_eq!(
        prints("if (0) print \"yes\"; else print \"no\"; if (nil) print 1; if (false) print 2; else print 3;"),
        vec!["yes", "3"]
    );
}

#[test]
fn arguments_are_evaluated_left_to_right() {
    assert_eq!(
        prints(
            "var n = 0; fun next() { n = n + 1; return n; } fun show(a, b, c) { print a; print b; print c; } \
             show(next(), next(), next());"
        ),
        vec!["1", "2", "3"]
    );
}

#[test]
fn calls_chain() {
    assert_eq!(
        prints("fun outer() { fun inner() { return 7; } return inner; } print outer()();"),
        vec!["7"]
    );
}

#[test]
fn runtime_error_stops_the_program() {
    let (lines, end) = run("print 1; print nope; print 2;");
    assert_eq!(lines, vec!["1"]);
    assert_eq!(
        end,
        End::Runtime { lexeme: "nope".to_string(), message: "Undefined variable: nope".to_string() }
    );
}

#[test]
fn for_loop_without_clauses_runs_until_break() {
    assert_eq!(
        prints("var i = 0; for (;;) { i = i + 1; if (i > 2) break; } print i;"),
        vec!["3"]
    );
}

#[test]
fn endless_loop_keeps_stepping() {
    let reading = Lox::new().run("while (true) {}".as_bytes().to_vec());
    let statements = reading.program.unwrap();
    let (lines, end) = drive(&statements, 10_000);
    assert!(lines.is_empty());
    assert_eq!(end, End::StepLimit);
}

#[test]
fn a_step_that_gets_no_answer_asks_again() {
    let reading = Lox::new().run("print 1 + 2;".as_bytes().to_vec());
    let statements = reading.program.unwrap();
    let mut interpreter = Interpreter::new();
    interpreter.interpret(&statements);
    let mut asked = 0;
    let mut lines = Vec::new();
    let mut answer = None;
    for _ in 0..100 {
        match interpreter.step(answer.take()) {
            Action::Parse(text) => {
                asked += 1;
                if asked % 2 == 0 {
                    answer = Some(Number::from_bits(text.parse::<f64>().unwrap().to_bits()));
                }
            }
            Action::Compute { operation, left, right } => {
                asked += 1;
                if asked % 2 == 0 {
                    answer = Some(compute(operation, left, right));
                }
            }
            Action::Print(output) => lines.push(show(&output)),
            Action::Finished => break,
            _ => {}
        }
    }
    assert_eq!(lines, vec!["3"]);
    assert_eq!(asked, 6);
    assert!(matches!(interpreter.step(None), Action::Finished));
}

#[test]
fn syntax_error_gives_no_program() {
    let reading = Lox::new().run("print 1 +;".as_bytes().to_vec());
    assert!(matches!(reading.program, Err(LoxError::Parse)));
    assert_eq!(reading.diagnostics.len(), 1);
    assert_eq!(reading.diagnostics[0].message, "Expected Expression.");
    assert_eq!(reading.diagnostics[0].position, " at ';'");
    assert_eq!(
        reading.diagnostics[0].to_line(),
        "[column: 10, line 1] Error  at ';': Expected Expression."
    );
}

#[test]
fn recorded_error_gives_no_program() {
    let mut lox = Lox::new();
    lox.had_error = true;
    let reading = lox.run("print 1;".as_bytes().to_vec());
    match reading.program {
        Err(LoxError::Error(message)) => assert_eq!(message, "Error running."),
        other => panic!("{:?}", other),
    }
}

#[test]
fn invalid_utf8_in_a_string_gives_no_program() {
    let reading = Lox::new().run(vec![b'"', 0xff, b'"', b';']);
    assert!(matches!(reading.program, Err(LoxError::FromUTF8(_))));
}

#[test]
fn utf8_text_in_a_string_is_kept() {
    assert_eq!(prints("print \"h\u{e9}llo \u{4e16}\u{754c}\";"), vec!["h\u{e9}llo \u{4e16}\u{754c}"]);
}

#[test]
fn unknown_character_is_reported_and_skipped() {
    let reading = Lox::new().run("print @ 1;".as_bytes().to_vec());
    assert_eq!(reading.diagnostics.len(), 1);
    assert_eq!(
        reading.diagnostics[0].message,
        "@, Unexpected Character At Line 1, Column: 7"
    );
    assert_eq!(reading.diagnostics[0].position, "");
    let statements = reading.program.unwrap();
    let (lines, end) = drive(&statements, 1000);
    assert_eq!(lines, vec!["1"]);
    assert_eq!(end, End::Finished);
}

#[test]
fn a_value_can_be_built_and_shown_directly() {
    let value: Object = Object::Number(Number::from_bits(1.5f64.to_bits()));
    assert_eq!(show(&value.stringify()), "1.5");
    assert!(value.is_truthy());
    assert!(!Object::NONE.is_truthy());
    assert!(!Object::Boolean(false).is_truthy());
    assert!(Object::String(String::new()).is_truthy());
}

#[test]
fn reading_the_same_source_twice_gives_the_same_program() {
    let source = "fun f(a, b) { if (a < b) return a; else { while (b) b = b - 1; } } print f(1, 2) or \"x\";";
    let first = Lox::new().run(source.as_bytes().to_vec());
    let second = Lox::new().run(source.as_bytes().to_vec());
    assert!(first.diagnostics.is_empty());
    assert_eq!(format!("{:?}", first.program), format!("{:?}", second.program));
    assert!(first.program.is_ok());
    let broken = "print (1;\nvar = 2;";
    let first = Lox::new().run(broken.as_bytes().to_vec());
    let second = Lox::new().run(broken.as_bytes().to_vec());
    assert_eq!(format!("{:?}", first.diagnostics), format!("{:?}", second.diagnostics));
    assert_eq!(first.diagnostics.len(), 2);
    assert!(matches!(first.program, Err(LoxError::Parse)));
    assert!(matches!(second.program, Err(LoxError::Parse)));
}

#[test]
fn a_statement_that_was_not_parsed_fails_the_run() {
    let statements = vec![Stmt::NONE];
    let (lines, end) = drive(&statements, 100);
    assert!(lines.is_empty());
    assert_eq!(end, End::Failed("Error(\"The statement could not be parsed.\")".to_string()));
}

#[test]
fn a_function_without_its_scope_fails_the_run() {
    let name = Token::new(TokenType::IDENTIFIER, "f".to_string(), Literal::Nil, 1, 1);
    let params = Vec::new();
    let body = Vec::new();
    let function = Function { name: &name, params: &params, body: &body, closure: 7 };
    assert_eq!(function.arity(), 0);
    let mut interpreter = Interpreter::new();
    function.call(&mut interpreter, &Vec::new());
    match interpreter.step(None) {
        Action::Failed(LoxError::Error(message)) => {
            assert_eq!(message, "The function's scope does not exist.");
        }
        other => panic!("{:?}", other),
    }
    assert!(matches!(interpreter.step(None), Action::Finished));
}

#[test]
fn a_function_called_by_hand_runs_in_a_scope_of_its_own() {
    let reading = Lox::new().run("print a; a = 2; return a;".as_bytes().to_vec());
    let body = reading.program.unwrap();
    let name = Token::new(TokenType::IDENTIFIER, "f".to_string(), Literal::Nil, 1, 1);
    let params = vec![Token::new(TokenType::IDENTIFIER, "a".to_string(), Literal::Nil, 1, 3)];
    let function = Function { name: &name, params: &params, body: &body, closure: 0 };
    assert_eq!(function.arity(), 1);
    let mut interpreter = Interpreter::new();
    function.call(&mut interpreter, &vec![Object::String("one".to_string())]);
    let mut lines = Vec::new();
    let mut answer = None;
    for _ in 0..100 {
        match interpreter.step(answer.take()) {
            Action::Print(output) => lines.push(show(&output)),
            Action::Parse(text) => {
                answer = Some(Number::from_bits(text.parse::<f64>().unwrap().to_bits()));
            }
            Action::Finished => break,
            Action::Continue => {}
            other => panic!("{:?}", other),
        }
    }
    assert_eq!(lines, vec!["one"]);
}

#[test]
fn a_block_scheduled_by_hand_runs_in_the_given_scope() {
    let reading = Lox::new().run("var a = \"x\"; print a;".as_bytes().to_vec());
    let statements = reading.program.unwrap();
    let mut interpreter = Interpreter::new();
    interpreter.execute_block(&statements, 0);
    let mut lines = Vec::new();
    for _ in 0..100 {
        match interpreter.step(None) {
            Action::Print(output) => lines.push(show(&output)),
            Action::Finished => break,
            _ => {}
        }
    }
    assert_eq!(lines, vec!["x"]);
}

#[test]
fn an_inner_loop_clears_the_loop_flag_of_its_scope() {
    assert_eq!(
        prints(
            "var i = 0; while (i < 2) { i = i + 1; var j = 0; while (j < 1) j = j + 1; break; print \"after\"; } print i;"
        ),
        vec!["after", "after", "2"]
    );
}

#[test]
fn break_inside_a_function_reaches_the_loop_around_the_call() {
    assert_eq!(
        prints(
            "var i = 0; while (true) { fun stop() { break; } i = i + 1; if (i == 3) stop(); } print i;"
        ),
        vec!["3"]
    );
}

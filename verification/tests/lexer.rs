use lox_interpreter::error::{report, LoxError};
use lox_interpreter::scanner::Scanner;
use lox_interpreter::token::{lookup_keyword, Literal, Token, TokenType};

fn scan(source: &str) -> (Vec<Token>, Vec<String>) {
    let mut scanner = Scanner::new(source.as_bytes().to_vec());
    let tokens = scanner.scan_tokens().unwrap();
    let lines = scanner.diagnostics().iter().map(|d| d.to_line()).collect();
    (tokens, lines)
}

fn kinds(source: &str) -> Vec<TokenType> {
    scan(source).0.iter().map(|t| t.token_type).collect()
}

#[test]
fn scans_a_print_statement() {
    let (tokens, lines) = scan("print 1 + 2;");
    let kinds: Vec<TokenType> = tokens.iter().map(|t| t.token_type).collect();
    assert_eq!(
        kinds,
        vec![
            TokenType::PRINT,
            TokenType::NUMBER,
            TokenType::PLUS,
            TokenType::NUMBER,
            TokenType::SEMICOLON,
            TokenType::EOF
        ]
    );
    assert!(lines.is_empty());
    assert_eq!(tokens[0].lexeme, "print");
    assert_eq!(tokens[1].lexeme, "1");
    assert_eq!((tokens[0].line, tokens[0].column), (1, 1));
    assert_eq!((tokens[1].line, tokens[1].column), (1, 7));
    assert_eq!((tokens[3].line, tokens[3].column), (1, 11));
    assert_eq!((tokens[5].line, tokens[5].column), (1, 13));
    assert_eq!(tokens[5].lexeme, "");
}

#[test]
fn empty_source_is_only_end_of_file() {
    let (tokens, lines) = scan("");
    assert_eq!(tokens.len(), 1);
    assert_eq!(tokens[0].token_type, TokenType::EOF);
    assert_eq!((tokens[0].line, tokens[0].column), (1, 1));
    assert!(lines.is_empty());
}

#[test]
fn single_character_tokens() {
    assert_eq!(
        kinds("(){},.-+;*/"),
        vec![
            TokenType::LEFT_PAREN,
            TokenType::RIGHT_PAREN,
            TokenType::LEFT_BRACE,
            TokenType::RIGHT_BRACE,
            TokenType::COMMA,
            TokenType::DOT,
            TokenType::MINUS,
            TokenType::PLUS,
            TokenType::SEMICOLON,
            TokenType::STAR,
            TokenType::SLASH,
            TokenType::EOF
        ]
    );
}

#[test]
fn one_or_two_character_tokens() {
    assert_eq!(
        kinds("! != = == < <= > >= =!=<"),
        vec![
            TokenType::BANG,
            TokenType::BANG_EQUAL,
            TokenType::EQUAL,
            TokenType::EQUAL_EQUAL,
            TokenType::LESS,
            TokenType::LESS_EQUAL,
            TokenType::GREATER,
            TokenType::GREATER_EQUAL,
            TokenType::EQUAL,
            TokenType::BANG_EQUAL,
            TokenType::LESS,
            TokenType::EOF
        ]
    );
    let (tokens, _) = scan("a<=b");
    assert_eq!(tokens[1].lexeme, "<=");
    assert_eq!(tokens[2].column, 4);
}

#[test]
fn comment_runs_to_the_end_of_the_line() {
    let (tokens, _) = scan("1 // two three\n4 / 5 // six");
    let kinds: Vec<TokenType> = tokens.iter().map(|t| t.token_type).collect();
    assert_eq!(
        kinds,
        vec![
            TokenType::NUMBER,
            TokenType::NUMBER,
            TokenType::SLASH,
            TokenType::NUMBER,
            TokenType::EOF
        ]
    );
    assert_eq!((tokens[1].line, tokens[1].column), (2, 1));
    assert_eq!((tokens[4].line, tokens[4].column), (2, 13));
}

#[test]
fn newline_starts_a_line_at_column_one() {
    let (tokens, _) = scan("a\n  b\r\n\tc");
    assert_eq!((tokens[0].line, tokens[0].column), (1, 1));
    assert_eq!((tokens[1].line, tokens[1].column), (2, 3));
    assert_eq!((tokens[2].line, tokens[2].column), (3, 2));
}

#[test]
fn string_literal_excludes_its_quotes() {
    let (tokens, lines) = scan("print \"hello world\";");
    assert!(lines.is_empty());
    assert_eq!(tokens[1].token_type, TokenType::STRING);
    assert_eq!(tokens[1].lexeme, "\"hello world\"");
    assert!(matches!(&tokens[1].literal, Literal::String(s) if s == "hello world"));
    assert_eq!((tokens[1].line, tokens[1].column), (1, 7));
    assert_eq!(tokens[2].token_type, TokenType::SEMICOLON);
    assert_eq!(tokens[2].column, 20);
}

#[test]
fn string_may_span_lines() {
    let (tokens, _) = scan("\"a\nb\" x");
    assert!(matches!(&tokens[0].literal, Literal::String(s) if s == "a\nb"));
    assert_eq!((tokens[0].line, tokens[0].column), (1, 1));
    assert_eq!(tokens[1].token_type, TokenType::IDENTIFIER);
    assert_eq!(tokens[1].line, 2);
}

#[test]
fn empty_string_literal() {
    let (tokens, _) = scan("\"\"");
    assert_eq!(tokens[0].lexeme, "\"\"");
    assert!(matches!(&tokens[0].literal, Literal::String(s) if s.is_empty()));
}

#[test]
fn unterminated_string_is_reported_at_its_start() {
    let (tokens, lines) = scan("x\n  \"abc\ndef");
    assert_eq!(tokens.len(), 2);
    assert_eq!(tokens[0].token_type, TokenType::IDENTIFIER);
    assert_eq!(tokens[1].token_type, TokenType::EOF);
    assert_eq!(lines, vec!["[column: 3, line 2] Error : Unterminated string at line: 2"]);
}

#[test]
fn numbers_with_and_without_fraction() {
    let (tokens, _) = scan("12 3.25 7. .5 1.2.3");
    let shown: Vec<(TokenType, String)> =
        tokens.iter().map(|t| (t.token_type, t.lexeme.clone())).collect();
    assert_eq!(
        shown,
        vec![
            (TokenType::NUMBER, "12".to_string()),
            (TokenType::NUMBER, "3.25".to_string()),
            (TokenType::NUMBER, "7".to_string()),
            (TokenType::DOT, ".".to_string()),
            (TokenType::DOT, ".".to_string()),
            (TokenType::NUMBER, "5".to_string()),
            (TokenType::NUMBER, "1.2".to_string()),
            (TokenType::DOT, ".".to_string()),
            (TokenType::NUMBER, "3".to_string()),
            (TokenType::EOF, "".to_string()),
        ]
    );
    assert!(matches!(&tokens[1].literal, Literal::Number(s) if s == "3.25"));
}

#[test]
fn number_followed_by_a_point_at_the_end() {
    let (tokens, _) = scan("1.");
    assert_eq!(tokens.len(), 3);
    assert_eq!(tokens[0].lexeme, "1");
    assert_eq!(tokens[1].token_type, TokenType::DOT);
}

#[test]
fn identifiers_and_keywords() {
    assert_eq!(
        kinds("and class else false for fun if nil or print return super this true var while break continue"),
        vec![
            TokenType::AND,
            TokenType::CLASS,
            TokenType::ELSE,
            TokenType::FALSE,
            TokenType::FOR,
            TokenType::FUN,
            TokenType::IF,
            TokenType::NONE,
            TokenType::OR,
            TokenType::PRINT,
            TokenType::RETURN,
            TokenType::SUPER,
            TokenType::THIS,
            TokenType::TRUE,
            TokenType::VAR,
            TokenType::WHILE,
            TokenType::BREAK,
            TokenType::CONTINUE,
            TokenType::EOF
        ]
    );
    assert_eq!(
        kinds("_a a1 A_b2 andy For nil_ 9a"),
        vec![
            TokenType::IDENTIFIER,
            TokenType::IDENTIFIER,
            TokenType::IDENTIFIER,
            TokenType::IDENTIFIER,
            TokenType::IDENTIFIER,
            TokenType::IDENTIFIER,
            TokenType::NUMBER,
            TokenType::IDENTIFIER,
            TokenType::EOF
        ]
    );
}

#[test]
fn keyword_table() {
    assert_eq!(lookup_keyword("while".to_string()), Some(TokenType::WHILE));
    assert_eq!(lookup_keyword("nil".to_string()), Some(TokenType::NONE));
    assert_eq!(lookup_keyword("continue".to_string()), Some(TokenType::CONTINUE));
    assert_eq!(lookup_keyword("While".to_string()), None);
    assert_eq!(lookup_keyword("".to_string()), None);
    assert_eq!(lookup_keyword("eof".to_string()), None);
}

#[test]
fn unknown_characters_are_reported_and_skipped() {
    let (tokens, lines) = scan("a # b\n  ?");
    let kinds: Vec<TokenType> = tokens.iter().map(|t| t.token_type).collect();
    assert_eq!(kinds, vec![TokenType::IDENTIFIER, TokenType::IDENTIFIER, TokenType::EOF]);
    assert_eq!(
        lines,
        vec![
            "[column: 3, line 1] Error : #, Unexpected Character At Line 1, Column: 3",
            "[column: 3, line 2] Error : ?, Unexpected Character At Line 2, Column: 3",
        ]
    );
}

#[test]
fn byte_outside_ascii_is_reported_as_its_character() {
    let mut scanner = Scanner::new(vec![0xe9, b'1']);
    let tokens = scanner.scan_tokens().unwrap();
    assert_eq!(tokens.len(), 2);
    assert_eq!(
        scanner.diagnostics()[0].message,
        "\u{e9}, Unexpected Character At Line 1, Column: 1"
    );
}

#[test]
fn string_that_is_not_utf8_fails_the_scan() {
    let mut scanner = Scanner::new(vec![b'1', b' ', b'"', 0xc3, b'"']);
    assert!(matches!(scanner.scan_tokens(), Err(LoxError::FromUTF8(_))));
}

#[test]
fn scanning_one_lexeme_at_a_time() {
    let mut scanner = Scanner::new("ab 12".as_bytes().to_vec());
    assert!(!scanner.is_at_end());
    scanner.scan_token().unwrap();
    scanner.scan_token().unwrap();
    scanner.scan_token().unwrap();
    assert!(scanner.is_at_end());
    let tokens = scanner.scan_tokens().unwrap();
    assert_eq!(tokens.len(), 3);
    assert_eq!(tokens[1].lexeme, "12");
    assert_eq!(tokens[1].column, 4);
}

#[test]
fn diagnostic_line_has_the_documented_form() {
    assert_eq!(report(7, 120, " at 'x'", "Oops."), "[column: 7, line 120] Error  at 'x': Oops.");
    assert_eq!(report(0, 10, "", ""), "[column: 0, line 10] Error : ");
}

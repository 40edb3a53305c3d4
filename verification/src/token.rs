//! Tokens: their kinds, literal payloads and source positions.
use vstd::prelude::*;
use vstd::string::StringExecFns;

verus! {

/// The kind of a token.
#[allow(non_camel_case_types)]
#[derive(Debug, Clone, Copy, PartialEq, Eq, Structural)]
pub enum TokenType {
    // Single-character tokens.
    LEFT_PAREN,
    RIGHT_PAREN,
    LEFT_BRACE,
    RIGHT_BRACE,
    COMMA,
    DOT,
    MINUS,
    PLUS,
    SEMICOLON,
    SLASH,
    STAR,
    // One or two character tokens.
    BANG,
    BANG_EQUAL,
    EQUAL,
    EQUAL_EQUAL,
    GREATER,
    GREATER_EQUAL,
    LESS,
    LESS_EQUAL,
    // Literals.
    IDENTIFIER,
    STRING,
    NUMBER,
    // Keywords.
    AND,
    CLASS,
    ELSE,
    FALSE,
    FUN,
    FOR,
    IF,
    NONE,
    OR,
    PRINT,
    RETURN,
    SUPER,
    THIS,
    TRUE,
    VAR,
    WHILE,
    EOF,
    BREAK,
    CONTINUE,
}

/// The kind that a reserved word stands for, if the text is one.
pub open spec fn keyword_kind(word: Seq<char>) -> Option<TokenType> {
    if word == "and"@ {
        Some(TokenType::AND)
    } else if word == "class"@ {
        Some(TokenType::CLASS)
    } else if word == "else"@ {
        Some(TokenType::ELSE)
    } else if word == "false"@ {
        Some(TokenType::FALSE)
    } else if word == "for"@ {
        Some(TokenType::FOR)
    } else if word == "fun"@ {
        Some(TokenType::FUN)
    } else if word == "if"@ {
        Some(TokenType::IF)
    } else if word == "nil"@ {
        Some(TokenType::NONE)
    } else if word == "or"@ {
        Some(TokenType::OR)
    } else if word == "print"@ {
        Some(TokenType::PRINT)
    } else if word == "return"@ {
        Some(TokenType::RETURN)
    } else if word == "super"@ {
        Some(TokenType::SUPER)
    } else if word == "this"@ {
        Some(TokenType::THIS)
    } else if word == "true"@ {
        Some(TokenType::TRUE)
    } else if word == "var"@ {
        Some(TokenType::VAR)
    } else if word == "while"@ {
        Some(TokenType::WHILE)
    } else if word == "break"@ {
        Some(TokenType::BREAK)
    } else if word == "continue"@ {
        Some(TokenType::CONTINUE)
    } else {
        None
    }
}

fn is_word(keyword: &String, word: &str) -> (r: bool)
    ensures
        r == (keyword@ == word@),
{
    let w = String::from_str(word);
    *keyword == w
}

/// Looks a word up in the table of reserved words.
pub fn lookup_keyword(keyword: String) -> (r: Option<TokenType>)
    ensures
        r == keyword_kind(keyword@),
{
    if is_word(&keyword, "and") {
        Some(TokenType::AND)
    } else if is_word(&keyword, "class") {
        Some(TokenType::CLASS)
    } else if is_word(&keyword, "else") {
        Some(TokenType::ELSE)
    } else if is_word(&keyword, "false") {
        Some(TokenType::FALSE)
    } else if is_word(&keyword, "for") {
        Some(TokenType::FOR)
    } else if is_word(&keyword, "fun") {
        Some(TokenType::FUN)
    } else if is_word(&keyword, "if") {
        Some(TokenType::IF)
    } else if is_word(&keyword, "nil") {
        Some(TokenType::NONE)
    } else if is_word(&keyword, "or") {
        Some(TokenType::OR)
    } else if is_word(&keyword, "print") {
        Some(TokenType::PRINT)
    } else if is_word(&keyword, "return") {
        Some(TokenType::RETURN)
    } else if is_word(&keyword, "super") {
        Some(TokenType::SUPER)
    } else if is_word(&keyword, "this") {
        Some(TokenType::THIS)
    } else if is_word(&keyword, "true") {
        Some(TokenType::TRUE)
    } else if is_word(&keyword, "var") {
        Some(TokenType::VAR)
    } else if is_word(&keyword, "while") {
        Some(TokenType::WHILE)
    } else if is_word(&keyword, "break") {
        Some(TokenType::BREAK)
    } else if is_word(&keyword, "continue") {
        Some(TokenType::CONTINUE)
    } else {
        None
    }
}

/// The payload that a token or a literal expression carries.
///
/// A number is kept as the decimal text it was written with: digits,
/// optionally followed by a point and more digits.
#[derive(Debug)]
pub enum Literal {
    String(String),
    Number(String),
    Nil,
    Boolean(bool),
}

/// The mathematical value of a [`Literal`].
pub enum LiteralView {
    String(Seq<char>),
    Number(Seq<char>),
    Nil,
    Boolean(bool),
}

impl View for Literal {
    type V = LiteralView;

    open spec fn view(&self) -> LiteralView {
        match self {
            Literal::String(s) => LiteralView::String(s@),
            Literal::Number(n) => LiteralView::Number(n@),
            Literal::Nil => LiteralView::Nil,
            Literal::Boolean(b) => LiteralView::Boolean(*b),
        }
    }
}

impl Clone for Literal {
    fn clone(&self) -> (r: Self)
        ensures
            r@ == self@,
    {
        match self {
            Literal::String(s) => Literal::String(s.clone()),
            Literal::Number(n) => Literal::Number(n.clone()),
            Literal::Nil => Literal::Nil,
            Literal::Boolean(b) => Literal::Boolean(*b),
        }
    }
}

impl Literal {
    /// The text that stands for the payload when a tree is printed.
    pub open spec fn text(v: LiteralView) -> Seq<char> {
        match v {
            LiteralView::Boolean(b) => if b { "true"@ } else { "false"@ },
            LiteralView::Nil => "none"@,
            LiteralView::Number(n) => n,
            LiteralView::String(s) => s,
        }
    }

    /// Renders the payload as text.
    pub fn to_string(&self) -> (r: String)
        ensures
            r@ == Self::text(self@),
    {
        match self {
            Literal::Boolean(b) => if *b { String::from_str("true") } else { String::from_str("false") },
            Literal::Nil => String::from_str("none"),
            Literal::Number(n) => n.clone(),
            Literal::String(s) => s.clone(),
        }
    }
}

/// A lexical unit: its kind, the exact source text, the payload and the
/// one-based position of its first character.
#[derive(Debug)]
pub struct Token {
    pub token_type: TokenType,
    pub lexeme: String,
    pub literal: Literal,
    pub line: usize,
    pub column: usize,
}

/// The mathematical value of a [`Token`].
pub struct TokenView {
    pub token_type: TokenType,
    pub lexeme: Seq<char>,
    pub literal: LiteralView,
    pub line: nat,
    pub column: nat,
}

impl View for Token {
    type V = TokenView;

    open spec fn view(&self) -> TokenView {
        TokenView {
            token_type: self.token_type,
            lexeme: self.lexeme@,
            literal: self.literal@,
            line: self.line as nat,
            column: self.column as nat,
        }
    }
}

impl Clone for Token {
    fn clone(&self) -> (r: Self)
        ensures
            r@ == self@,
    {
        Token {
            token_type: self.token_type,
            lexeme: self.lexeme.clone(),
            literal: self.literal.clone(),
            line: self.line,
            column: self.column,
        }
    }
}

impl Token {
    /// A token of the given parts.
    pub fn new(
        token_type: TokenType,
        lexeme: String,
        literal: Literal,
        line: usize,
        column: usize,
    ) -> (r: Self)
        ensures
            r@ == (TokenView {
                token_type,
                lexeme: lexeme@,
                literal: literal@,
                line: line as nat,
                column: column as nat,
            }),
    {
        Token { token_type, lexeme, literal, line, column }
    }
}

/// The views of a sequence of tokens, one for one.
pub open spec fn tokens_view(tokens: Seq<Token>) -> Seq<TokenView> {
    Seq::new(tokens.len(), |i: int| tokens[i]@)
}

/// Copies a list of tokens.
pub fn clone_tokens(tokens: &Vec<Token>) -> (r: Vec<Token>)
    ensures
        tokens_view(r@) == tokens_view(tokens@),
{
    let mut out: Vec<Token> = Vec::new();
    let mut i: usize = 0;
    while i < tokens.len()
        invariant
            i <= tokens@.len(),
            out@.len() == i,
            forall|j: int| 0 <= j < i ==> out@[j]@ == tokens@[j]@,
        decreases tokens@.len() - i,
    {
        out.push(tokens[i].clone());
        i += 1;
    }
    assert(tokens_view(out@) =~= tokens_view(tokens@));
    out
}

} // verus!

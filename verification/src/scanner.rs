//! The lexer: a byte buffer becomes an ordered sequence of tokens that ends
//! in an end-of-file token.
use vstd::prelude::*;
use vstd::string::StringExecFns;
use vstd::utf8::{decode_utf8, valid_utf8};
use crate::error::{diagnostics_view, Diagnostic, DiagnosticView, LoxError, LoxErrorView};
use crate::text::{
    bytes_as_chars,
    chars_of_bytes,
    decimal,
    push_decimal,
    push_text,
    slice_bytes,
    string_from_utf8,
};
use crate::token::{
    clone_tokens,
    keyword_kind,
    lookup_keyword,
    tokens_view,
    Literal,
    LiteralView,
    Token,
    TokenType,
    TokenView,
};

verus! {

/// A place in the source: the offset of the next byte and the one-based line
/// and column that it stands at.
pub struct Cursor {
    pub current: int,
    pub line: int,
    pub column: int,
}

/// The classes of bytes that the lexer consumes in runs.
#[derive(Clone, Copy, PartialEq, Eq, Structural)]
pub enum ByteClass {
    /// Decimal digits.
    Digit,
    /// Letters, digits and the underscore.
    Word,
    /// Everything up to the end of the line.
    Comment,
    /// Everything up to the closing quote of a string.
    Text,
}

/// The byte is a decimal digit.
pub open spec fn is_digit(b: u8) -> bool {
    '0' <= b as char <= '9'
}

/// The byte may start an identifier: a letter or the underscore.
pub open spec fn is_alphabetic(b: u8) -> bool {
    ('a' <= b as char <= 'z') || ('A' <= b as char <= 'Z') || b as char == '_'
}

/// The byte may go on an identifier.
pub open spec fn is_alpha_numeric(b: u8) -> bool {
    is_digit(b) || is_alphabetic(b)
}

/// Whether a run of the class goes on over the byte `b`.
pub open spec fn continues(class: ByteClass, b: u8) -> bool {
    match class {
        ByteClass::Digit => is_digit(b),
        ByteClass::Word => is_alpha_numeric(b),
        ByteClass::Comment => b as char != '\n',
        ByteClass::Text => b as char != '"',
    }
}

/// The number of bytes from `from` on that belong to one run of the class.
pub open spec fn run_len(src: Seq<u8>, from: int, class: ByteClass) -> nat
    decreases src.len() - from,
{
    if 0 <= from < src.len() && continues(class, src[from]) {
        1 + run_len(src, from + 1, class)
    } else {
        0
    }
}

/// The number of line feeds among the bytes in `from..to`.
pub open spec fn newlines(src: Seq<u8>, from: int, to: int) -> nat
    decreases to - from,
{
    if to <= from {
        0
    } else {
        newlines(src, from, to - 1) + if src[to - 1] as char == '\n' {
            1nat
        } else {
            0nat
        }
    }
}

/// The kind of a token that is one character long whatever follows it.
pub open spec fn single_char_kind(b: u8) -> Option<TokenType> {
    let c = b as char;
    if c == '(' {
        Some(TokenType::LEFT_PAREN)
    } else if c == ')' {
        Some(TokenType::RIGHT_PAREN)
    } else if c == '{' {
        Some(TokenType::LEFT_BRACE)
    } else if c == '}' {
        Some(TokenType::RIGHT_BRACE)
    } else if c == ',' {
        Some(TokenType::COMMA)
    } else if c == '.' {
        Some(TokenType::DOT)
    } else if c == '-' {
        Some(TokenType::MINUS)
    } else if c == '+' {
        Some(TokenType::PLUS)
    } else if c == ';' {
        Some(TokenType::SEMICOLON)
    } else if c == '*' {
        Some(TokenType::STAR)
    } else {
        None
    }
}

/// The kinds of an operator that may be followed by `=`: alone, and with it.
pub open spec fn operator_kinds(b: u8) -> Option<(TokenType, TokenType)> {
    let c = b as char;
    if c == '!' {
        Some((TokenType::BANG, TokenType::BANG_EQUAL))
    } else if c == '=' {
        Some((TokenType::EQUAL, TokenType::EQUAL_EQUAL))
    } else if c == '<' {
        Some((TokenType::LESS, TokenType::LESS_EQUAL))
    } else if c == '>' {
        Some((TokenType::GREATER, TokenType::GREATER_EQUAL))
    } else {
        None
    }
}

/// Whether the byte at `at` exists and is the character `c`.
pub open spec fn byte_is(src: Seq<u8>, at: int, c: char) -> bool {
    0 <= at < src.len() && src[at] as char == c
}

/// The cursor after `n` more bytes of the same line.
pub open spec fn moved(c: Cursor, n: int) -> Cursor {
    Cursor { current: c.current + n, line: c.line, column: c.column + n }
}

/// What scanning one lexeme gives: where the lexer stands afterwards, the
/// token and the diagnostic if there is one, and whether the text of the
/// lexeme could be read.
pub struct ScanStep {
    pub cursor: Cursor,
    pub token: Option<TokenView>,
    pub diagnostic: Option<DiagnosticView>,
    pub valid: bool,
}

/// A step that yields the token of kind `kind` spanning from `c` to `after`.
pub open spec fn emit(src: Seq<u8>, c: Cursor, after: Cursor, kind: TokenType) -> ScanStep {
    ScanStep {
        cursor: after,
        token: Some(
            TokenView {
                token_type: kind,
                lexeme: bytes_as_chars(src.subrange(c.current, after.current)),
                literal: LiteralView::Nil,
                line: c.line as nat,
                column: c.column as nat,
            },
        ),
        diagnostic: None,
        valid: true,
    }
}

/// A step that consumes bytes up to `after` and yields nothing.
pub open spec fn skip(after: Cursor) -> ScanStep {
    ScanStep { cursor: after, token: None, diagnostic: None, valid: true }
}

/// Where a number that starts at `start` ends: after its digits and, if a
/// point and at least one digit follow, after those digits too.
pub open spec fn number_end(src: Seq<u8>, start: int) -> int {
    let whole = start + run_len(src, start, ByteClass::Digit);
    if byte_is(src, whole, '.') && whole + 1 < src.len() && is_digit(src[whole + 1]) {
        whole + 1 + run_len(src, whole + 1, ByteClass::Digit)
    } else {
        whole
    }
}

/// The step for a number whose first digit stands at `c`.
pub open spec fn scan_number(src: Seq<u8>, c: Cursor) -> ScanStep {
    let end = number_end(src, c.current);
    let text = bytes_as_chars(src.subrange(c.current, end));
    ScanStep {
        cursor: moved(c, end - c.current),
        token: Some(
            TokenView {
                token_type: TokenType::NUMBER,
                lexeme: text,
                literal: LiteralView::Number(text),
                line: c.line as nat,
                column: c.column as nat,
            },
        ),
        diagnostic: None,
        valid: true,
    }
}

/// The step for an identifier or a reserved word that starts at `c`.
pub open spec fn scan_identifier(src: Seq<u8>, c: Cursor) -> ScanStep {
    let end = c.current + run_len(src, c.current, ByteClass::Word);
    let text = bytes_as_chars(src.subrange(c.current, end));
    let kind = match keyword_kind(text) {
        Some(k) => k,
        None => TokenType::IDENTIFIER,
    };
    emit(src, c, moved(c, end - c.current), kind)
}

/// The message for a string that is still open at the end of the input.
pub open spec fn unterminated_message(line: nat) -> Seq<char> {
    "Unterminated string at line: "@ + decimal(line)
}

/// The message for a character that starts no token.
pub open spec fn unexpected_message(b: u8, line: nat, column: nat) -> Seq<char> {
    seq![b as char] + ", Unexpected Character At Line "@ + decimal(line) + ", Column: "@ + decimal(
        column,
    )
}

/// The step for a string whose opening quote stands at `c`.
pub open spec fn scan_string(src: Seq<u8>, c: Cursor) -> ScanStep {
    let close = c.current + 1 + run_len(src, c.current + 1, ByteClass::Text);
    if close >= src.len() {
        ScanStep {
            cursor: Cursor {
                current: close,
                line: c.line + newlines(src, c.current + 1, close),
                column: c.column + (close - c.current),
            },
            token: None,
            diagnostic: Some(
                DiagnosticView {
                    column: c.column as nat,
                    line: c.line as nat,
                    position: Seq::empty(),
                    message: unterminated_message(c.line as nat),
                },
            ),
            valid: true,
        }
    } else {
        let after = Cursor {
            current: close + 1,
            line: c.line + newlines(src, c.current + 1, close),
            column: c.column + (close + 1 - c.current),
        };
        let inner = src.subrange(c.current + 1, close);
        let whole = src.subrange(c.current, close + 1);
        if valid_utf8(inner) && valid_utf8(whole) {
            ScanStep {
                cursor: after,
                token: Some(
                    TokenView {
                        token_type: TokenType::STRING,
                        lexeme: decode_utf8(whole),
                        literal: LiteralView::String(decode_utf8(inner)),
                        line: c.line as nat,
                        column: c.column as nat,
                    },
                ),
                diagnostic: None,
                valid: true,
            }
        } else {
            ScanStep { cursor: after, token: None, diagnostic: None, valid: false }
        }
    }
}

/// What the lexer does with the lexeme that starts at `c`.
pub open spec fn scan_step(src: Seq<u8>, c: Cursor) -> ScanStep
    recommends
        0 <= c.current < src.len(),
{
    let b = src[c.current];
    let ch = b as char;
    if single_char_kind(b).is_some() {
        emit(src, c, moved(c, 1), single_char_kind(b).unwrap())
    } else if operator_kinds(b).is_some() {
        if byte_is(src, c.current + 1, '=') {
            emit(src, c, moved(c, 2), operator_kinds(b).unwrap().1)
        } else {
            emit(src, c, moved(c, 1), operator_kinds(b).unwrap().0)
        }
    } else if ch == '/' {
        if byte_is(src, c.current + 1, '/') {
            skip(moved(c, 2 + run_len(src, c.current + 2, ByteClass::Comment) as int))
        } else {
            emit(src, c, moved(c, 1), TokenType::SLASH)
        }
    } else if ch == ' ' || ch == '\r' || ch == '\t' {
        skip(moved(c, 1))
    } else if ch == '\n' {
        skip(Cursor { current: c.current + 1, line: c.line + 1, column: 1 })
    } else if is_digit(b) {
        scan_number(src, c)
    } else if ch == '"' {
        scan_string(src, c)
    } else if is_alphabetic(b) {
        scan_identifier(src, c)
    } else {
        ScanStep {
            cursor: moved(c, 1),
            token: None,
            diagnostic: Some(
                DiagnosticView {
                    column: c.column as nat,
                    line: c.line as nat,
                    position: Seq::empty(),
                    message: unexpected_message(b, c.line as nat, c.column as nat),
                },
            ),
            valid: true,
        }
    }
}

/// Zero or one element as a sequence.
pub open spec fn optional<T>(o: Option<T>) -> Seq<T> {
    match o {
        Some(t) => seq![t],
        None => Seq::empty(),
    }
}

/// The result of scanning a whole buffer.
pub struct ScanOutput {
    /// The tokens, ending in the end-of-file token; those before the failure
    /// if the scan failed.
    pub tokens: Seq<TokenView>,
    /// The diagnostics in the order in which they were found.
    pub diagnostics: Seq<DiagnosticView>,
    /// False if a string literal was not UTF-8.
    pub valid: bool,
}

/// The end-of-file token at `c`.
pub open spec fn eof_token(c: Cursor) -> TokenView {
    TokenView {
        token_type: TokenType::EOF,
        lexeme: Seq::empty(),
        literal: LiteralView::Nil,
        line: c.line as nat,
        column: c.column as nat,
    }
}

/// The distance from the cursor to the end of the buffer.
pub open spec fn remaining(src: Seq<u8>, current: int) -> nat {
    if current <= src.len() {
        (src.len() - current) as nat
    } else {
        0
    }
}

/// The tokens and diagnostics of the source from `c` on.
pub open spec fn scan_from(src: Seq<u8>, c: Cursor) -> ScanOutput
    decreases remaining(src, c.current),
{
    if !(0 <= c.current < src.len()) {
        ScanOutput { tokens: seq![eof_token(c)], diagnostics: Seq::empty(), valid: true }
    } else {
        let step = scan_step(src, c);
        if !step.valid {
            ScanOutput { tokens: Seq::empty(), diagnostics: Seq::empty(), valid: false }
        } else {
            let rest = scan_from(src, step.cursor);
            ScanOutput {
                tokens: optional(step.token) + rest.tokens,
                diagnostics: optional(step.diagnostic) + rest.diagnostics,
                valid: rest.valid,
            }
        }
    }
}

/// The place where scanning starts: the first byte, line one, column one.
pub open spec fn origin() -> Cursor {
    Cursor { current: 0, line: 1, column: 1 }
}

/// The tokens and diagnostics of a whole source text.
pub open spec fn lex(src: Seq<u8>) -> ScanOutput {
    scan_from(src, origin())
}

/// The lexer's state: the source, what it has produced so far and where it
/// stands.
pub struct Scanner {
    source: Vec<u8>,
    tokens: Vec<Token>,
    diagnostics: Vec<Diagnostic>,
    start: usize,
    current: usize,
    column: usize,
    line: usize,
}

fn byte_continues(class: ByteClass, b: u8) -> (r: bool)
    ensures
        r == continues(class, b),
{
    let c = b as char;
    match class {
        ByteClass::Digit => '0' <= c && c <= '9',
        ByteClass::Word => ('0' <= c && c <= '9') || ('a' <= c && c <= 'z') || ('A' <= c && c
            <= 'Z') || c == '_',
        ByteClass::Comment => c != '\n',
        ByteClass::Text => c != '"',
    }
}

impl Scanner {
    /// The bytes being scanned.
    pub closed spec fn source(&self) -> Seq<u8> {
        self.source@
    }

    /// Where the lexer stands.
    pub closed spec fn cursor(&self) -> Cursor {
        Cursor { current: self.current as int, line: self.line as int, column: self.column as int }
    }

    /// The tokens produced so far.
    pub closed spec fn tokens(&self) -> Seq<TokenView> {
        tokens_view(self.tokens@)
    }

    /// The diagnostics reported so far.
    pub closed spec fn reported(&self) -> Seq<DiagnosticView> {
        diagnostics_view(self.diagnostics@)
    }

    /// The cursor lies within the source, and line and column have grown by
    /// no more than the bytes consumed.
    pub closed spec fn wf(&self) -> bool {
        &&& self.source@.len() < usize::MAX
        &&& self.start <= self.current <= self.source@.len()
        &&& 1 <= self.column <= self.current + 1
        &&& 1 <= self.line <= self.current + 1
    }

    spec fn same_output(&self, other: &Scanner) -> bool {
        &&& self.source == other.source
        &&& self.tokens == other.tokens
        &&& self.diagnostics == other.diagnostics
        &&& self.start == other.start
    }

    /// A lexer at the start of `source`.
    pub fn new(source: Vec<u8>) -> (r: Self)
        requires
            source@.len() < usize::MAX,
        ensures
            r.wf(),
            r.source() == source@,
            r.cursor() == origin(),
            r.tokens() == Seq::<TokenView>::empty(),
            r.reported() == Seq::<DiagnosticView>::empty(),
    {
        let r = Scanner {
            source,
            tokens: Vec::new(),
            diagnostics: Vec::new(),
            start: 0,
            current: 0,
            column: 1,
            line: 1,
        };
        assert(r.tokens() =~= Seq::<TokenView>::empty());
        assert(r.reported() =~= Seq::<DiagnosticView>::empty());
        r
    }

    /// The diagnostics reported so far, in the order in which they were found.
    pub fn diagnostics(&self) -> (r: &Vec<Diagnostic>)
        ensures
            diagnostics_view(r@) == self.reported(),
    {
        &self.diagnostics
    }

    /// Scans the rest of the source and returns every token produced, the
    /// end-of-file token last.
    #[verifier::loop_isolation(false)]
    pub fn scan_tokens(&mut self) -> (r: Result<Vec<Token>, LoxError>)
        requires
            old(self).wf(),
        ensures
            final(self).wf(),
            final(self).source() == old(self).source(),
            r.is_ok() == scan_from(old(self).source(), old(self).cursor()).valid,
            final(self).reported() == old(self).reported() + scan_from(
                old(self).source(),
                old(self).cursor(),
            ).diagnostics,
            r matches Ok(v) ==> {
                let out = scan_from(old(self).source(), old(self).cursor());
                &&& tokens_view(v@) == old(self).tokens() + out.tokens
                &&& final(self).tokens() == old(self).tokens() + out.tokens
            },
            r matches Err(e) ==> e@ == LoxErrorView::FromUTF8,
    {
        let ghost src = self.source@;
        let ghost first = self.cursor();
        let ghost tokens0 = self.tokens();
        let ghost reported0 = self.reported();
        assert(tokens0 + Seq::<TokenView>::empty() =~= tokens0);
        assert(reported0 + Seq::<DiagnosticView>::empty() =~= reported0);
        while !self.is_at_end()
            invariant
                self.wf(),
                self.source@ == src,
                scan_from(src, first).valid == scan_from(src, self.cursor()).valid,
                tokens0 + scan_from(src, first).tokens == self.tokens() + scan_from(
                    src,
                    self.cursor(),
                ).tokens,
                reported0 + scan_from(src, first).diagnostics == self.reported() + scan_from(
                    src,
                    self.cursor(),
                ).diagnostics,
            decreases src.len() - self.current,
        {
            let ghost here = self.cursor();
            let ghost tokens1 = self.tokens();
            let ghost reported1 = self.reported();
            let ghost step = scan_step(src, here);
            match self.scan_token() {
                Ok(()) => {
                    proof {
                        let rest = scan_from(src, step.cursor);
                        assert(tokens1 + (optional(step.token) + rest.tokens) =~= (tokens1
                            + optional(step.token)) + rest.tokens);
                        assert(reported1 + (optional(step.diagnostic) + rest.diagnostics) =~= (
                        reported1 + optional(step.diagnostic)) + rest.diagnostics);
                    }
                },
                Err(e) => {
                    return Err(e);
                },
            }
        }
        let eof = Token::new(
            TokenType::EOF,
            String::new(),
            Literal::Nil,
            self.line,
            self.column,
        );
        proof {
            assert(tokens_view(self.tokens@.push(eof)) =~= tokens_view(self.tokens@).push(eof@));
            assert(self.tokens() + seq![eof@] =~= self.tokens().push(eof@));
        }
        self.tokens.push(eof);
        Ok(clone_tokens(&self.tokens))
    }

    /// Whether every byte has been consumed.
    pub fn is_at_end(&self) -> (r: bool)
        ensures
            r == (self.cursor().current >= self.source().len()),
    {
        self.current >= self.source.len()
    }

    /// Scans one lexeme: a token, a comment, white space or a character that
    /// starts no token.
    pub fn scan_token(&mut self) -> (r: Result<(), LoxError>)
        requires
            old(self).wf(),
            old(self).cursor().current < old(self).source().len(),
        ensures
            final(self).wf(),
            final(self).source() == old(self).source(),
            final(self).cursor() == scan_step(old(self).source(), old(self).cursor()).cursor,
            r.is_ok() == scan_step(old(self).source(), old(self).cursor()).valid,
            r.is_ok() ==> {
                let step = scan_step(old(self).source(), old(self).cursor());
                &&& final(self).tokens() == old(self).tokens() + optional(step.token)
                &&& final(self).reported() == old(self).reported() + optional(step.diagnostic)
            },
            r matches Err(e) ==> {
                &&& e@ == LoxErrorView::FromUTF8
                &&& final(self).tokens() == old(self).tokens()
                &&& final(self).reported() == old(self).reported()
            },
    {
        self.start = self.current;
        let col = self.column;
        let line = self.line;
        let ghost before = *self;
        proof {
            assert(before.tokens() + Seq::<TokenView>::empty() =~= before.tokens());
            assert(before.reported() + Seq::<DiagnosticView>::empty() =~= before.reported());
        }
        let c = self.advance();
        if c == '(' {
            self.add_token(TokenType::LEFT_PAREN, line, col);
        } else if c == ')' {
            self.add_token(TokenType::RIGHT_PAREN, line, col);
        } else if c == '{' {
            self.add_token(TokenType::LEFT_BRACE, line, col);
        } else if c == '}' {
            self.add_token(TokenType::RIGHT_BRACE, line, col);
        } else if c == ',' {
            self.add_token(TokenType::COMMA, line, col);
        } else if c == '.' {
            self.add_token(TokenType::DOT, line, col);
        } else if c == '-' {
            self.add_token(TokenType::MINUS, line, col);
        } else if c == '+' {
            self.add_token(TokenType::PLUS, line, col);
        } else if c == ';' {
            self.add_token(TokenType::SEMICOLON, line, col);
        } else if c == '*' {
            self.add_token(TokenType::STAR, line, col);
        } else if c == '!' {
            let token_type = if self.match_next('=') {
                TokenType::BANG_EQUAL
            } else {
                TokenType::BANG
            };
            self.add_token(token_type, line, col);
        } else if c == '=' {
            let token_type = if self.match_next('=') {
                TokenType::EQUAL_EQUAL
            } else {
                TokenType::EQUAL
            };
            self.add_token(token_type, line, col);
        } else if c == '<' {
            let token_type = if self.match_next('=') {
                TokenType::LESS_EQUAL
            } else {
                TokenType::LESS
            };
            self.add_token(token_type, line, col);
        } else if c == '>' {
            let token_type = if self.match_next('=') {
                TokenType::GREATER_EQUAL
            } else {
                TokenType::GREATER
            };
            self.add_token(token_type, line, col);
        } else if c == '/' {
            if self.match_next('/') {
                self.advance_while(ByteClass::Comment);
            } else {
                self.add_token(TokenType::SLASH, line, col);
            }
        } else if c == ' ' || c == '\r' || c == '\t' {
        } else if c == '\n' {
            self.line += 1;
            self.column = 1;
        } else if '0' <= c && c <= '9' {
            self.read_number(line, col);
        } else if c == '"' {
            return self.read_string(line, col);
        } else if ('a' <= c && c <= 'z') || ('A' <= c && c <= 'Z') || c == '_' {
            self.read_identifier(line, col);
        } else {
            let mut message = String::new();
            message.push(c);
            push_text(&mut message, ", Unexpected Character At Line ");
            push_decimal(&mut message, line);
            push_text(&mut message, ", Column: ");
            push_decimal(&mut message, col);
            self.report(col, line, message);
        }
        Ok(())
    }

    fn report(&mut self, column: usize, line: usize, message: String)
        ensures
            final(self).source == old(self).source,
            final(self).tokens == old(self).tokens,
            final(self).start == old(self).start,
            final(self).cursor() == old(self).cursor(),
            final(self).reported() == old(self).reported().push(
                DiagnosticView {
                    column: column as nat,
                    line: line as nat,
                    position: Seq::empty(),
                    message: message@,
                },
            ),
            final(self).reported() == old(self).reported() + seq![
                DiagnosticView {
                    column: column as nat,
                    line: line as nat,
                    position: Seq::empty(),
                    message: message@,
                },
            ],
    {
        let d = Diagnostic { column, line, position: String::new(), message };
        proof {
            assert(diagnostics_view(self.diagnostics@.push(d)) =~= diagnostics_view(
                self.diagnostics@,
            ).push(d@));
            assert(self.reported() + seq![d@] =~= self.reported().push(d@));
        }
        self.diagnostics.push(d);
    }

    fn advance(&mut self) -> (c: char)
        requires
            old(self).wf(),
            old(self).current < old(self).source@.len(),
        ensures
            final(self).wf(),
            final(self).same_output(old(self)),
            final(self).cursor() == moved(old(self).cursor(), 1),
            c == old(self).source@[old(self).current as int] as char,
    {
        let b = self.source[self.current];
        self.current += 1;
        self.column += 1;
        b as char
    }

    fn add_token(&mut self, token_type: TokenType, line: usize, column: usize)
        requires
            old(self).wf(),
        ensures
            final(self).wf(),
            final(self).source == old(self).source,
            final(self).diagnostics == old(self).diagnostics,
            final(self).start == old(self).start,
            final(self).cursor() == old(self).cursor(),
            final(self).tokens() == old(self).tokens() + seq![
                TokenView {
                    token_type,
                    lexeme: bytes_as_chars(
                        old(self).source@.subrange(
                            old(self).start as int,
                            old(self).current as int,
                        ),
                    ),
                    literal: LiteralView::Nil,
                    line: line as nat,
                    column: column as nat,
                },
            ],
    {
        let text = chars_of_bytes(&self.source, self.start, self.current);
        self.add_token_with_literal(token_type, text, Literal::Nil, line, column);
    }

    fn add_token_with_literal(
        &mut self,
        token_type: TokenType,
        text: String,
        literal: Literal,
        line: usize,
        column: usize,
    )
        requires
            old(self).wf(),
        ensures
            final(self).wf(),
            final(self).source == old(self).source,
            final(self).diagnostics == old(self).diagnostics,
            final(self).start == old(self).start,
            final(self).cursor() == old(self).cursor(),
            final(self).tokens() == old(self).tokens() + seq![
                TokenView {
                    token_type,
                    lexeme: text@,
                    literal: literal@,
                    line: line as nat,
                    column: column as nat,
                },
            ],
    {
        let token = Token::new(token_type, text, literal, line, column);
        proof {
            assert(tokens_view(self.tokens@.push(token)) =~= tokens_view(self.tokens@).push(
                token@,
            ));
            assert(self.tokens() + seq![token@] =~= self.tokens().push(token@));
        }
        self.tokens.push(token);
    }

    fn match_next(&mut self, expected: char) -> (r: bool)
        requires
            old(self).wf(),
        ensures
            final(self).wf(),
            final(self).same_output(old(self)),
            r == byte_is(old(self).source@, old(self).current as int, expected),
            final(self).cursor() == if r {
                moved(old(self).cursor(), 1)
            } else {
                old(self).cursor()
            },
    {
        if self.is_at_end() {
            return false;
        }
        if self.source[self.current] as char != expected {
            return false;
        }
        self.current += 1;
        self.column += 1;
        true
    }

    fn peek(&self) -> (c: char)
        ensures
            c == if self.current < self.source@.len() {
                self.source@[self.current as int] as char
            } else {
                '\0'
            },
    {
        if self.is_at_end() {
            '\0'
        } else {
            self.source[self.current] as char
        }
    }

    fn peek_next(&self) -> (c: char)
        requires
            self.wf(),
        ensures
            c == if self.current + 1 < self.source@.len() {
                self.source@[self.current + 1] as char
            } else {
                '\0'
            },
    {
        if self.current + 1 >= self.source.len() {
            '\0'
        } else {
            self.source[self.current + 1] as char
        }
    }

    /// Consumes the run of bytes of the class that starts at the cursor.
    fn advance_while(&mut self, class: ByteClass)
        requires
            old(self).wf(),
        ensures
            final(self).wf(),
            final(self).same_output(old(self)),
            final(self).current == old(self).current + run_len(
                old(self).source@,
                old(self).current as int,
                class,
            ),
            final(self).column == old(self).column + run_len(
                old(self).source@,
                old(self).current as int,
                class,
            ),
            final(self).line == old(self).line + if class == ByteClass::Text {
                newlines(old(self).source@, old(self).current as int, final(self).current as int)
            } else {
                0
            },
    {
        let ghost before = *self;
        let ghost src = self.source@;
        while self.current < self.source.len() && byte_continues(class, self.source[self.current])
            invariant
                self.wf(),
                self.same_output(&before),
                src == self.source@,
                before.current <= self.current,
                run_len(src, before.current as int, class) == (self.current - before.current)
                    + run_len(src, self.current as int, class),
                self.column == before.column + (self.current - before.current),
                self.line == before.line + if class == ByteClass::Text {
                    newlines(src, before.current as int, self.current as int)
                } else {
                    0
                },
            decreases src.len() - self.current,
        {
            if class == ByteClass::Text && self.source[self.current] as char == '\n' {
                self.line += 1;
            }
            self.current += 1;
            self.column += 1;
        }
    }

    fn read_string(&mut self, line: usize, column: usize) -> (r: Result<(), LoxError>)
        requires
            old(self).wf(),
            old(self).start + 1 == old(self).current,
            old(self).source@[old(self).start as int] as char == '"',
            column + 1 == old(self).column,
            line == old(self).line,
        ensures
            final(self).wf(),
            final(self).source == old(self).source,
            ({
                let c = Cursor {
                    current: old(self).start as int,
                    line: line as int,
                    column: column as int,
                };
                let step = scan_string(old(self).source@, c);
                &&& final(self).cursor() == step.cursor
                &&& r.is_ok() == step.valid
                &&& r.is_ok() ==> final(self).tokens() == old(self).tokens() + optional(step.token)
                &&& r.is_ok() ==> final(self).reported() == old(self).reported() + optional(
                    step.diagnostic,
                )
            }),
            r matches Err(e) ==> {
                &&& e@ == LoxErrorView::FromUTF8
                &&& final(self).tokens() == old(self).tokens()
                &&& final(self).reported() == old(self).reported()
            },
    {
        let ghost before = *self;
        proof {
            assert(before.tokens() + Seq::<TokenView>::empty() =~= before.tokens());
            assert(before.reported() + Seq::<DiagnosticView>::empty() =~= before.reported());
        }
        self.advance_while(ByteClass::Text);
        if self.is_at_end() {
            let mut message = String::from_str("Unterminated string at line: ");
            push_decimal(&mut message, line);
            self.report(column, line, message);
            return Ok(());
        }
        self.advance();
        let inner = string_from_utf8(slice_bytes(&self.source, self.start + 1, self.current - 1));
        let whole = string_from_utf8(slice_bytes(&self.source, self.start, self.current));
        match inner {
            Err(e) => Err(LoxError::FromUTF8(e)),
            Ok(value) => match whole {
                Err(e) => Err(LoxError::FromUTF8(e)),
                Ok(text) => {
                    self.add_token_with_literal(
                        TokenType::STRING,
                        text,
                        Literal::String(value),
                        line,
                        column,
                    );
                    Ok(())
                },
            },
        }
    }

    fn read_number(&mut self, line: usize, column: usize)
        requires
            old(self).wf(),
            old(self).start + 1 == old(self).current,
            is_digit(old(self).source@[old(self).start as int]),
            column + 1 == old(self).column,
            line == old(self).line,
        ensures
            final(self).wf(),
            final(self).source == old(self).source,
            final(self).diagnostics == old(self).diagnostics,
            ({
                let c = Cursor {
                    current: old(self).start as int,
                    line: line as int,
                    column: column as int,
                };
                let step = scan_number(old(self).source@, c);
                &&& final(self).cursor() == step.cursor
                &&& final(self).tokens() == old(self).tokens() + optional(step.token)
            }),
    {
        self.advance_while(ByteClass::Digit);
        let next = self.peek_next();
        if self.peek() == '.' && '0' <= next && next <= '9' {
            self.advance();
            self.advance_while(ByteClass::Digit);
        }
        let text = chars_of_bytes(&self.source, self.start, self.current);
        let number = text.clone();
        self.add_token_with_literal(TokenType::NUMBER, text, Literal::Number(number), line, column);
    }

    fn read_identifier(&mut self, line: usize, column: usize)
        requires
            old(self).wf(),
            old(self).start + 1 == old(self).current,
            is_alphabetic(old(self).source@[old(self).start as int]),
            column + 1 == old(self).column,
            line == old(self).line,
        ensures
            final(self).wf(),
            final(self).source == old(self).source,
            final(self).diagnostics == old(self).diagnostics,
            ({
                let c = Cursor {
                    current: old(self).start as int,
                    line: line as int,
                    column: column as int,
                };
                let step = scan_identifier(old(self).source@, c);
                &&& final(self).cursor() == step.cursor
                &&& final(self).tokens() == old(self).tokens() + optional(step.token)
            }),
    {
        self.advance_while(ByteClass::Word);
        let value = chars_of_bytes(&self.source, self.start, self.current);
        let token_type = match lookup_keyword(value) {
            Some(token_type) => token_type,
            None => TokenType::IDENTIFIER,
        };
        self.add_token(token_type, line, column);
    }
}

/// Scanning consumes at least one byte at a time and never leaves the source.
pub proof fn lemma_step_advances(src: Seq<u8>, c: Cursor)
    requires
        0 <= c.current < src.len(),
    ensures
        c.current < scan_step(src, c).cursor.current,
{
}

/// A scan that succeeds ends in the end-of-file token, and only there.
pub proof fn lemma_scan_ends_in_eof(src: Seq<u8>, c: Cursor)
    ensures
        ({
            let out = scan_from(src, c);
            out.valid ==> {
                &&& out.tokens.len() > 0
                &&& out.tokens[out.tokens.len() - 1].token_type == TokenType::EOF
            }
        }),
    decreases remaining(src, c.current),
{
    if 0 <= c.current < src.len() {
        let step = scan_step(src, c);
        if step.valid {
            lemma_scan_ends_in_eof(src, step.cursor);
            let rest = scan_from(src, step.cursor);
            let all = optional(step.token) + rest.tokens;
            if rest.valid {
                assert(all[all.len() - 1] == rest.tokens[rest.tokens.len() - 1]);
            }
        }
    }
}

} // verus!

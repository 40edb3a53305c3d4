//! Diagnostics and the error type shared by the lexer, the parser and the
//! evaluator.
use vstd::prelude::*;
use vstd::string::StringExecFns;
use std::string::FromUtf8Error;
use crate::text::{decimal, push_decimal, push_text};
use crate::token::{Token, TokenType, TokenView};

verus! {

/// One report of the lexer or the parser about the source text.
#[derive(Debug)]
pub struct Diagnostic {
    pub column: usize,
    pub line: usize,
    pub position: String,
    pub message: String,
}

/// The mathematical value of a [`Diagnostic`].
pub struct DiagnosticView {
    pub column: nat,
    pub line: nat,
    pub position: Seq<char>,
    pub message: Seq<char>,
}

impl View for Diagnostic {
    type V = DiagnosticView;

    open spec fn view(&self) -> DiagnosticView {
        DiagnosticView {
            column: self.column as nat,
            line: self.line as nat,
            position: self.position@,
            message: self.message@,
        }
    }
}

impl Clone for Diagnostic {
    fn clone(&self) -> (r: Self)
        ensures
            r@ == self@,
    {
        Diagnostic {
            column: self.column,
            line: self.line,
            position: self.position.clone(),
            message: self.message.clone(),
        }
    }
}

/// The views of a sequence of diagnostics, one for one.
pub open spec fn diagnostics_view(diagnostics: Seq<Diagnostic>) -> Seq<DiagnosticView> {
    Seq::new(diagnostics.len(), |i: int| diagnostics[i]@)
}

/// The line of text that a diagnostic is shown as.
pub open spec fn report_line(
    column: nat,
    line: nat,
    position: Seq<char>,
    message: Seq<char>,
) -> Seq<char> {
    "[column: "@ + decimal(column) + ", line "@ + decimal(line) + "] Error "@ + position + ": "@
        + message
}

/// Formats a diagnostic as the line that is shown to the user.
pub fn report(column: usize, line: usize, position: &str, message: &str) -> (r: String)
    ensures
        r@ == report_line(column as nat, line as nat, position@, message@),
{
    let mut out = String::new();
    push_text(&mut out, "[column: ");
    push_decimal(&mut out, column);
    push_text(&mut out, ", line ");
    push_decimal(&mut out, line);
    push_text(&mut out, "] Error ");
    push_text(&mut out, position);
    push_text(&mut out, ": ");
    push_text(&mut out, message);
    assert(out@ =~= report_line(column as nat, line as nat, position@, message@));
    out
}

impl Diagnostic {
    /// Formats the diagnostic as the line that is shown to the user.
    pub fn to_line(&self) -> (r: String)
        ensures
            r@ == report_line(self@.column, self@.line, self@.position, self@.message),
    {
        report(self.column, self.line, self.position.as_str(), self.message.as_str())
    }
}

/// Where a syntax error is said to be: at the end of the input, or at the
/// text of the offending token.
pub open spec fn parse_error_position(token: TokenView) -> Seq<char> {
    if token.token_type == TokenType::EOF {
        " at end of file"@
    } else {
        " at '"@ + token.lexeme + "'"@
    }
}

/// The diagnostic for a syntax error found at `token`.
pub open spec fn parse_error_at(token: TokenView, message: Seq<char>) -> DiagnosticView {
    DiagnosticView {
        column: token.column,
        line: token.line,
        position: parse_error_position(token),
        message,
    }
}

/// Builds the diagnostic for a syntax error found at `token`.
pub fn report_parse_error(token: &Token, message: &str) -> (r: Diagnostic)
    ensures
        r@ == parse_error_at(token@, message@),
{
    let position = if token.token_type == TokenType::EOF {
        String::from_str(" at end of file")
    } else {
        let mut p = String::from_str(" at '");
        push_text(&mut p, token.lexeme.as_str());
        push_text(&mut p, "'");
        p
    };
    Diagnostic {
        column: token.column,
        line: token.line,
        position,
        message: String::from_str(message),
    }
}

/// Why a run of the interpreter stopped early.
#[derive(Debug)]
pub enum LoxError {
    /// A string literal of the source is not UTF-8.
    FromUTF8(FromUtf8Error),
    /// A failure described only by its text.
    Error(String),
    /// Reading the input or writing the output failed.
    IoError(String),
    /// At least one syntax error was found.
    Parse,
    /// Evaluation failed at `token`.
    Runtime { token: Token, message: String },
}

/// The mathematical value of a [`LoxError`].
pub enum LoxErrorView {
    FromUTF8,
    Error(Seq<char>),
    IoError(Seq<char>),
    Parse,
    Runtime { token: TokenView, message: Seq<char> },
}

impl View for LoxError {
    type V = LoxErrorView;

    open spec fn view(&self) -> LoxErrorView {
        match self {
            LoxError::FromUTF8(_) => LoxErrorView::FromUTF8,
            LoxError::Error(m) => LoxErrorView::Error(m@),
            LoxError::IoError(m) => LoxErrorView::IoError(m@),
            LoxError::Parse => LoxErrorView::Parse,
            LoxError::Runtime { token, message } => LoxErrorView::Runtime {
                token: token@,
                message: message@,
            },
        }
    }
}

/// Appends copies of the diagnostics in `more` to `all`.
pub fn append_diagnostics(all: &mut Vec<Diagnostic>, more: &Vec<Diagnostic>)
    ensures
        diagnostics_view(final(all)@) == diagnostics_view(old(all)@) + diagnostics_view(more@),
{
    let ghost start = all@;
    let mut i: usize = 0;
    while i < more.len()
        invariant
            i <= more@.len(),
            all@.len() == start.len() + i,
            forall|j: int| 0 <= j < start.len() ==> all@[j] == start[j],
            forall|j: int| 0 <= j < i ==> (#[trigger] all@[start.len() + j])@ == more@[j]@,
        decreases more@.len() - i,
    {
        all.push(more[i].clone());
        i += 1;
    }
    proof {
        let expected = diagnostics_view(start) + diagnostics_view(more@);
        assert forall|j: int| 0 <= j < expected.len() implies diagnostics_view(all@)[j]
            == expected[j] by {
            if j >= start.len() {
                assert(all@[start.len() + (j - start.len())]@ == more@[j - start.len()]@);
            }
        }
        assert(diagnostics_view(all@) =~= expected);
    }
}

/// Copies a list of diagnostics.
pub fn clone_diagnostics(diagnostics: &Vec<Diagnostic>) -> (r: Vec<Diagnostic>)
    ensures
        diagnostics_view(r@) == diagnostics_view(diagnostics@),
{
    let mut all: Vec<Diagnostic> = Vec::new();
    assert(diagnostics_view(all@) =~= Seq::<DiagnosticView>::empty());
    append_diagnostics(&mut all, diagnostics);
    assert(Seq::<DiagnosticView>::empty() + diagnostics_view(diagnostics@) =~= diagnostics_view(
        diagnostics@,
    ));
    all
}

} // verus!

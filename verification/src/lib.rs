//! A tree-walking interpreter for the Lox scripting language: a lexer, a
//! recursive-descent parser and an evaluator with lexical scopes, closures and
//! non-local control flow.
pub mod ast_tools;
pub mod environment;
pub mod error;
pub mod function;
pub mod interpreter;
pub mod number;
pub mod object;
pub mod parser;
pub mod scanner;
pub mod text;
pub mod token;

use vstd::prelude::*;
use vstd::string::StringExecFns;
use crate::ast_tools::{stmts_view, Stmt, StmtView};
use crate::error::{diagnostics_view, Diagnostic, DiagnosticView, LoxError, LoxErrorView};
use crate::parser::grammar::{parse_report, parse_tokens};
use crate::parser::Parser;
use crate::scanner::{lemma_scan_ends_in_eof, lex, origin, Scanner};
use crate::token::tokens_view;

verus! {

/// The front of the interpreter: it turns source text into a program that
/// an [`interpreter::Interpreter`] can run.
pub struct Lox {
    pub had_error: bool,
}

/// What reading a source text gives.
pub struct Reading {
    /// The program, or why there is none.
    pub program: Result<Vec<Stmt>, LoxError>,
    /// What the lexer and the parser reported, in that order.
    pub diagnostics: Vec<Diagnostic>,
}

/// The program that a source text stands for, if it has no syntax error.
pub open spec fn source_program(source: Seq<u8>) -> Option<Seq<StmtView>> {
    if lex(source).valid {
        parse_tokens(lex(source).tokens)
    } else {
        None
    }
}

/// What the lexer and the parser report of a source text.
pub open spec fn source_diagnostics(source: Seq<u8>) -> Seq<DiagnosticView> {
    if lex(source).valid {
        lex(source).diagnostics + parse_report(lex(source).tokens)
    } else {
        lex(source).diagnostics
    }
}

/// Why a source text gives no program, if it gives none: a string literal
/// that is not UTF-8, a syntax error, or an error recorded earlier.
pub open spec fn source_error(source: Seq<u8>, had_error: bool) -> Option<LoxErrorView> {
    if !lex(source).valid {
        Some(LoxErrorView::FromUTF8)
    } else if source_program(source).is_none() {
        Some(LoxErrorView::Parse)
    } else if had_error {
        Some(LoxErrorView::Error("Error running."@))
    } else {
        None
    }
}

/// `reading` is what the source text gives: its diagnostics, and its
/// program or the reason why it has none.
pub open spec fn reads_as(source: Seq<u8>, had_error: bool, reading: Reading) -> bool {
    &&& diagnostics_view(reading.diagnostics@) == source_diagnostics(source)
    &&& match reading.program {
        Ok(statements) => source_error(source, had_error).is_none() && source_program(source)
            == Some(stmts_view(statements@)),
        Err(e) => source_error(source, had_error) == Some(e@),
    }
}

/// Reading is deterministic: two readings of one source text report the
/// same diagnostics and either both fail, for the same reason, or give the
/// same program.
pub proof fn lemma_reading_is_deterministic(
    source: Seq<u8>,
    had_error: bool,
    first: Reading,
    second: Reading,
)
    requires
        reads_as(source, had_error, first),
        reads_as(source, had_error, second),
    ensures
        diagnostics_view(first.diagnostics@) == diagnostics_view(second.diagnostics@),
        match (first.program, second.program) {
            (Ok(a), Ok(b)) => stmts_view(a@) == stmts_view(b@),
            (Err(a), Err(b)) => a@ == b@,
            _ => false,
        },
{
}

impl Lox {
    /// A front end that has recorded no error.
    pub fn new() -> (r: Self)
        ensures
            !r.had_error,
    {
        Lox { had_error: false }
    }

    /// Scans and parses a source text.
    pub fn run(&self, source: Vec<u8>) -> (r: Reading)
        requires
            source@.len() < usize::MAX,
        ensures
            reads_as(source@, self.had_error, r),
    {
        let ghost text = source@;
        let mut scanner = Scanner::new(source);
        let scanned = scanner.scan_tokens();
        let mut diagnostics = error::clone_diagnostics(scanner.diagnostics());
        proof {
            lemma_scan_ends_in_eof(text, origin());
            assert(Seq::<DiagnosticView>::empty() + lex(text).diagnostics =~= lex(text).diagnostics);
            assert(Seq::<crate::token::TokenView>::empty() + lex(text).tokens =~= lex(text).tokens);
        }
        match scanned {
            Err(e) => Reading { program: Err(e), diagnostics },
            Ok(tokens) => {
                let program = self.parse(tokens, &mut diagnostics);
                Reading { program, diagnostics }
            },
        }
    }

    /// Parses the tokens and adds what the parser reports to `diagnostics`.
    fn parse(&self, tokens: Vec<crate::token::Token>, diagnostics: &mut Vec<Diagnostic>) -> (r:
        Result<Vec<Stmt>, LoxError>)
        requires
            tokens@.len() > 0,
            tokens@[tokens@.len() - 1].token_type == crate::token::TokenType::EOF,
        ensures
            diagnostics_view(final(diagnostics)@) == diagnostics_view(old(diagnostics)@)
                + parse_report(tokens_view(tokens@)),
            match r {
                Ok(statements) => !self.had_error && parse_tokens(
                    tokens_view(tokens@),
                ) == Some(stmts_view(statements@)),
                Err(e) => if parse_tokens(tokens_view(tokens@)).is_none() {
                    e@ == LoxErrorView::Parse
                } else {
                    self.had_error && e@ == LoxErrorView::Error("Error running."@)
                },
            },
    {
        let mut parser = Parser::new(tokens);
        let parsed = parser.parse();
        error::append_diagnostics(diagnostics, parser.diagnostics());
        let statements = parsed?;
        if self.had_error {
            return Err(LoxError::Error(String::from_str("Error running.")));
        }
        Ok(statements)
    }
}

} // verus!


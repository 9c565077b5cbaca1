//! The diagnostics collector that the lexer and the parser report into.
use vstd::prelude::*;

use crate::expression::{printed, AstPrinter};
use crate::parser::{parse_tokens, Parsed, Parser};
use crate::scanner::{lemma_tokens_end_with_eof, scan, scan_errors, token_views, Scanner};
use crate::token::{Token, TokenType, TokenView};

verus! {

/// One reported error: the line, where on it, and what went wrong.
#[derive(Clone, Debug)]
pub struct Diagnostic {
    pub line: usize,
    pub location: String,
    pub message: String,
}

pub struct DiagnosticView {
    pub line: int,
    pub location: Seq<char>,
    pub message: Seq<char>,
}

impl View for Diagnostic {
    type V = DiagnosticView;

    open spec fn view(&self) -> DiagnosticView {
        DiagnosticView { line: self.line as int, location: self.location@, message: self.message@ }
    }
}

/// Collects the errors of a lex or parse pass; `had_error` tells the driver
/// that evaluation must not run.
pub struct Lox {
    pub had_error: bool,
    pub diagnostics: Vec<Diagnostic>,
}

pub open spec fn diagnostic_views(d: Seq<Diagnostic>) -> Seq<DiagnosticView> {
    d.map_values(|x: Diagnostic| x@)
}

/// Where a parse error at a token is placed: at the end of input, or at the
/// token's lexeme.
pub open spec fn parse_location(t: TokenView) -> Seq<char> {
    if t.token_type == TokenType::Eof {
        "at end"@
    } else {
        "at '"@ + t.lexeme + "'"@
    }
}

/// The diagnostic of a parse error with `message` at token `t`.
pub open spec fn parse_diagnostic(t: TokenView, message: Seq<char>) -> DiagnosticView {
    DiagnosticView { line: t.line, location: parse_location(t), message }
}

/// The diagnostic of a lex error with `message` on `line`.
pub open spec fn lex_diagnostic(line: int, message: Seq<char>) -> DiagnosticView {
    DiagnosticView { line, location: Seq::empty(), message }
}

impl Lox {
    pub open spec fn reported(&self) -> Seq<DiagnosticView> {
        diagnostic_views(self.diagnostics@)
    }

    pub fn new() -> (r: Lox)
        ensures
            !r.had_error,
            r.reported() == Seq::<DiagnosticView>::empty(),
    {
        let r = Lox { had_error: false, diagnostics: Vec::new() };
        assert(r.reported() =~= Seq::<DiagnosticView>::empty());
        r
    }

    /// Records an error and raises the error flag.
    pub fn report(&mut self, line: usize, where_in_code: &str, message: &str)
        ensures
            final(self).had_error,
            final(self).reported() == old(self).reported().push(
                DiagnosticView { line: line as int, location: where_in_code@, message: message@ },
            ),
    {
        let d = Diagnostic {
            line,
            location: String::from_str(where_in_code),
            message: String::from_str(message),
        };
        self.diagnostics.push(d);
        self.had_error = true;
        assert(self.reported() =~= old(self).reported().push(d@));
    }

    pub fn error_lexer(&mut self, line: usize, message: &str)
        ensures
            final(self).had_error,
            final(self).reported() == old(self).reported().push(
                lex_diagnostic(line as int, message@),
            ),
    {
        proof {
            reveal_strlit("");
        }
        self.report(line, "", message);
        assert(""@ =~= Seq::<char>::empty());
    }

    pub fn error_parser(&mut self, token: &Token, message: &str)
        ensures
            final(self).had_error,
            final(self).reported() == old(self).reported().push(
                parse_diagnostic(token@, message@),
            ),
    {
        if token.token_type == TokenType::Eof {
            self.report(token.line, "at end", message);
        } else {
            let place = String::from_str("at '").concat(token.lexeme.as_str()).concat("'");
            self.report(token.line, place.as_str(), message);
        }
    }

    /// Runs one source text through the lexer and the parser and gives the
    /// printed tree, or nothing where an error was reported (now or before).
    pub fn run(&mut self, source: String) -> (r: Option<String>)
        requires
            source@.len() < usize::MAX,
        ensures
            exists|toks: Seq<Token>|
                {
                    &&& token_views(toks) == scan(source@)
                    &&& run_outcome(toks, scan_errors(source@), *old(self), *final(self), r)
                },
    {
        let ghost text = source@;
        let mut scanner = Scanner::new(source);
        let tokens = scanner.scan_tokens(self);
        proof {
            lemma_scan_ends_with_eof(tokens@, text);
        }
        let mut parser = Parser::new(tokens);
        let expression = parser.parse(self);
        if self.had_error {
            return None;
        }
        match expression {
            Ok(e) => Some(AstPrinter.print(&e)),
            Err(_) => None,
        }
    }
}

/// What a run reports and returns, given its tokens and its lex errors:
/// the lex errors, then a parse error if parsing failed; the printed tree
/// exactly when no error was ever reported.
pub open spec fn run_outcome(
    toks: Seq<Token>,
    lex_errors: Seq<DiagnosticView>,
    before: Lox,
    after: Lox,
    r: Option<String>,
) -> bool {
    &&& after.had_error == (before.had_error || lex_errors.len() > 0 || parse_tokens(toks) is Failed)
    &&& match parse_tokens(toks) {
        Parsed::Done(e, _) => {
            &&& after.reported() == before.reported() + lex_errors
            &&& (r matches Some(text) ==> text@ == printed(e))
        },
        Parsed::Failed(at, m) => after.reported() == (before.reported() + lex_errors).push(
            parse_diagnostic(toks[at]@, m),
        ),
    }
    &&& (r is Some <==> !after.had_error)
}

/// The tokens of a scan end with `Eof`.
pub proof fn lemma_scan_ends_with_eof(toks: Seq<Token>, s: Seq<char>)
    requires
        token_views(toks) == scan(s),
    ensures
        toks.len() > 0,
        toks.last().token_type == TokenType::Eof,
{
    lemma_tokens_end_with_eof(s, 0, 1);
    assert(token_views(toks).len() == toks.len());
    assert(token_views(toks)[toks.len() - 1] == toks.last()@);
}

} // verus!

//! The whole front end on one source text: scan, and parse when the scan is clean.

use vstd::prelude::*;
use crate::abstract_syntax_tree::ast;
use crate::lexical::keywords::{keyword_table, Keywords};
use crate::lexical::lexing::{initial_state, scan_all};
use crate::lexical::scanner::Scanner;
use crate::lexical::token::Token;
use crate::parser::grammar::program;
use crate::parser::parser::{law_scanned_tokens_parse, program_outcome, ParseError, Parser};
use crate::throw::{report_text, Error};

verus! {

/// What the front end makes of a source text.
pub enum Analysis {
    /// The scanner reported errors, so nothing was parsed; `report` is the
    /// printed error log.
    LexicalErrors { report: String },
    /// The scan was clean: its `tokens`, and what parsing them gave.
    Parsed { tokens: Vec<Token>, result: Result<ast::Program, Vec<ParseError>> },
}

/// Scans `source` with a fresh error log and the reserved words; when the
/// scan reports no error, parses its tokens from the first.
pub fn analyze(source: &str) -> (r: Analysis)
    requires
        source@.len() < usize::MAX,
    ensures
        ({
            let scan = scan_all(source@, keyword_table(), initial_state(Seq::empty()));
            match r {
                Analysis::LexicalErrors { report } => scan.errors.len() > 0 && report@ == report_text(scan.errors),
                Analysis::Parsed { tokens, result } => {
                    &&& scan.errors.len() == 0
                    &&& tokens@.map_values(|t: Token| t@) == scan.tokens
                    &&& program_outcome(result) == program(tokens@, 0)
                },
            }
        }),
{
    let log = Error::new();
    let mut scanner = Scanner::new(source, log, Keywords::new());
    let tokens = scanner.run().clone();
    if scanner.reporter().has_error_occurred() {
        return Analysis::LexicalErrors { report: scanner.reporter().to_string() };
    }
    proof {
        law_scanned_tokens_parse(source@, Seq::empty(), tokens@);
    }
    let mut parser = Parser::new(tokens.clone());
    let result = parser.parse_program();
    Analysis::Parsed { tokens, result }
}

} // verus!

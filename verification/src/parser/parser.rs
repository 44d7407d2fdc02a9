//! The parser: a recursive-descent parser from tokens to a syntax tree.

use vstd::prelude::*;
use crate::abstract_syntax_tree::ast;
use crate::abstract_syntax_tree::model::{
    view_and, view_annotation, view_annotations, view_arm, view_arms, view_comparison, view_else,
    view_else_if, view_else_ifs, view_equality, view_expression, view_expressions, view_factor,
    view_field, view_fields, view_literal_fields, view_opt_expression, view_opt_type, view_or,
    view_parameter, view_parameters, view_path, view_pattern, view_pattern_field,
    view_pattern_fields, view_patterns, view_postfix, view_primary, view_stmt, view_stmts,
    view_term, view_type, view_types, view_unary, view_variant, view_variant_fields, view_variants,
    SpecStmt, SpecExpression, SpecLogicalOr, SpecLogicalAnd, SpecEquality, SpecComparison, SpecTerm,
    SpecFactor, SpecUnary, SpecElseBranch,
};
use crate::lexical::token::Token;
use crate::lexical::keywords::{keyword_table, law_keywords_reserve_no_end};
use crate::lexical::lexing::{initial_state, law_scan_ends_with_one_eof, scan_all};
use crate::lexical::token_type::{LiteralValue, TokenType};
use crate::parser::grammar::{
    annotation, annotation_args_from, annotation_rest, annotations_from, arguments, arguments_from,
    arms_from, assign_target, assignment, at_end, block_from, bump, check, check_any, check_next,
    comparison, comparison_operators, consume, declaration, else_ifs_from, enum_declaration,
    equality, equality_operators, error_at, expression, expression_statement, factor,
    factor_operators, fields_from, fn_declaration, for_statement, if_statement, let_declaration,
    literal_fields_from, logical_and, logical_or, logical_or_entry, match_expression, ok,
    parameters, parameters_from, path, path_rest, pattern, pattern_fields_from, pattern_list_from,
    postfix, postfix_from, primary, program, program_from, rem, return_statement, statement,
    struct_declaration, struct_literal, synchronize, synchronize_from, starts_statement, term,
    term_operators, tuple_types_from, type_annotation, unary, unary_operators, variant_fields,
    variants_from, while_statement, Parsed, SpecParseError,
};

verus! {

/// An error met while parsing.
#[derive(Debug)]
pub struct ParseError {
    /// The token that caused the error, or the one nearest to it.
    pub token: Option<Token>,
    /// What was expected.
    pub message: String,
    /// The line of the error.
    pub line: usize,
}

impl View for ParseError {
    type V = SpecParseError;

    open spec fn view(&self) -> SpecParseError {
        SpecParseError { token: self.token, message: self.message@, line: self.line }
    }
}

impl ParseError {
    #[verifier::spinoff_prover]
    fn new(token: Option<&Token>, message: &str, line: usize) -> (r: Self)
        ensures
            r.token == (match token {
                Some(t) => Some(*t),
                None => None,
            }),
            r.message@ == message@,
            r.line == line,
    {
        let token = match token {
            Some(t) => Some(t.clone()),
            None => None,
        };
        ParseError { token, message: message.to_owned(), line }
    }
}

impl Clone for ParseError {
    /// A copy equal to this value.
    fn clone(&self) -> (r: Self)
        ensures
            r == *self,
    {
        let token = match &self.token {
            Some(t) => Some(t.clone()),
            None => None,
        };
        ParseError { token, message: self.message.clone(), line: self.line }
    }
}

/// The outcome of a parsing step, by the views of its tree and error.
pub open spec fn outcome<T: View>(r: Result<T, ParseError>) -> Result<T::V, SpecParseError> {
    match r {
        Ok(v) => Ok(v@),
        Err(e) => Err(e@),
    }
}

/// The outcome of a parsing step, viewing its result with `f`.
pub open spec fn outcome_by<T, V>(r: Result<T, ParseError>, f: spec_fn(T) -> V) -> Result<V, SpecParseError> {
    match r {
        Ok(v) => Ok(f(v)),
        Err(e) => Err(e@),
    }
}

/// Whether a parsing step that went from `before` to `after` with outcome `r`
/// is the step that `s` describes.
pub closed spec fn follows<V>(r: Result<V, SpecParseError>, before: Parser, after: Parser, s: Parsed<V>) -> bool {
    &&& s.result == r
    &&& after.current == before.current + s.used
}

/// The postfix expression that `expr` consists of, when no operator stands
/// around it (the only form that can be assigned to).
#[verifier::spinoff_prover]
fn assign_target_of(expr: ast::Expression) -> (r: Option<Box<ast::Postfix>>)
    ensures
        match r {
            Some(pf) => assign_target(expr@) == Some(Box::new(view_postfix(*pf))),
            None => assign_target(expr@) is None,
        },
{
    proof {
        reveal(view_expression);
        reveal(view_or);
        reveal(view_and);
        reveal(view_equality);
        reveal(view_comparison);
        reveal(view_term);
        reveal(view_factor);
        reveal(view_unary);
    }
    let ghost e = expr;
    match expr {
        ast::Expression::LogicalOr(o) => {
            assert(view_expression(e) == SpecExpression::LogicalOr(Box::new(view_or(*o))));
            let ghost go = *o;
            match *o {
                ast::LogicalOr::Next(a) => {
                    assert(view_or(go) == SpecLogicalOr::Next(Box::new(view_and(*a))));
                    let ghost ga = *a;
                    match *a {
                        ast::LogicalAnd::Next(q) => {
                            assert(view_and(ga) == SpecLogicalAnd::Next(Box::new(view_equality(*q))));
                            let ghost gq = *q;
                            match *q {
                                ast::Equality::Next(c) => {
                                    assert(view_equality(gq) == SpecEquality::Next(Box::new(view_comparison(*c))));
                                    let ghost gc = *c;
                                    match *c {
                                        ast::Comparison::Next(t) => {
                                            assert(view_comparison(gc) == SpecComparison::Next(Box::new(view_term(*t))));
                                            let ghost gt = *t;
                                            match *t {
                                                ast::Term::Next(f) => {
                                                    assert(view_term(gt) == SpecTerm::Next(Box::new(view_factor(*f))));
                                                    let ghost gf = *f;
                                                    match *f {
                                                        ast::Factor::Next(u) => {
                                                            assert(view_factor(gf) == SpecFactor::Next(Box::new(view_unary(*u))));
                                                            let ghost gu = *u;
                                                            match *u {
                                                                ast::Unary::Next(pf) => {
                                                                    assert(view_unary(gu) == SpecUnary::Next(Box::new(view_postfix(*pf))));
                                                                    Some(pf)
                                                                },
                                                                _ => None,
                                                            }
                                                        },
                                                        _ => None,
                                                    }
                                                },
                                                _ => None,
                                            }
                                        },
                                        _ => None,
                                    }
                                },
                                _ => None,
                            }
                        },
                        _ => None,
                    }
                },
                _ => None,
            }
        },
        _ => None,
    }
}

/// The views of a list of parse errors.
pub open spec fn view_errors(v: Seq<ParseError>) -> Seq<SpecParseError> {
    v.map_values(|e: ParseError| e@)
}

/// What a whole-program parse returned, by the views of its statements or errors.
pub open spec fn program_outcome(r: Result<Vec<ast::Stmt>, Vec<ParseError>>) -> Result<Seq<SpecStmt>, Seq<SpecParseError>> {
    match r {
        Ok(v) => Ok(view_stmts(v)),
        Err(v) => Err(view_errors(v@)),
    }
}

/// Recovery never moves back: the stopping point is at or after `p`.
proof fn lemma_synchronize_from_forward(ts: Seq<Token>, p: int)
    ensures
        synchronize_from(ts, p) >= p,
    decreases rem(ts, p),
{
    if !at_end(ts, p) && ts[p - 1].token_type != TokenType::Semicolon && !starts_statement(ts[p].token_type) {
        lemma_synchronize_from_forward(ts, p + 1);
    }
}

/// Recovery after an error that is not at the end of the input always moves
/// past the token at fault.
pub proof fn law_recovery_moves_forward(ts: Seq<Token>, p: int)
    requires
        !at_end(ts, p),
    ensures
        synchronize(ts, p) > p,
{
    lemma_synchronize_from_forward(ts, p + 1);
}

/// Whether recovery may stop at `q`: at the end, just after a `;`, or at a
/// token that starts a statement.
pub open spec fn recovery_point(ts: Seq<Token>, q: int) -> bool {
    at_end(ts, q) || ts[q - 1].token_type == TokenType::Semicolon || starts_statement(ts[q].token_type)
}

proof fn lemma_synchronize_from_first(ts: Seq<Token>, p: int)
    requires
        0 < p,
    ensures
        recovery_point(ts, synchronize_from(ts, p)),
        forall|j: int| p <= j < synchronize_from(ts, p) ==> !#[trigger] recovery_point(ts, j),
    decreases rem(ts, p),
{
    if !recovery_point(ts, p) {
        lemma_synchronize_from_first(ts, p + 1);
    }
}

/// Recovery after an error at `p`, not at the end, stops at the first
/// position after `p` where it may stop: at the end, just after a `;`, or at a
/// token that starts a statement.
pub proof fn law_recovery_stops_at_first_boundary(ts: Seq<Token>, p: int)
    requires
        0 <= p,
        !at_end(ts, p),
    ensures
        synchronize(ts, p) > p,
        recovery_point(ts, synchronize(ts, p)),
        forall|j: int| p < j < synchronize(ts, p) ==> !#[trigger] recovery_point(ts, j),
{
    lemma_synchronize_from_forward(ts, p + 1);
    lemma_synchronize_from_first(ts, p + 1);
}

/// A refused program is answered with at least one error.
pub proof fn law_refusal_has_errors(ts: Seq<Token>, p: int)
    ensures
        program(ts, p) matches Err(es) ==> es.len() > 0,
{
}

/// What the scanner produces with the reserved words can be handed to the
/// parser: its tokens end with the one end-of-file token.
pub proof fn law_scanned_tokens_parse(src: Seq<char>, errors: Seq<Seq<char>>, tokens: Seq<Token>)
    requires
        tokens.map_values(|t: Token| t@) == scan_all(src, keyword_table(), initial_state(errors)).tokens,
    ensures
        eof_from(tokens, 0),
        tokens.last().token_type == TokenType::EndOfFile,
        forall|i: int| 0 <= i < tokens.len() - 1 ==> #[trigger] tokens[i].token_type != TokenType::EndOfFile,
{
    law_keywords_reserve_no_end();
    law_scan_ends_with_one_eof(src, keyword_table(), initial_state(errors));
    let views = scan_all(src, keyword_table(), initial_state(errors)).tokens;
    assert(tokens.len() == views.len());
    assert(views[views.len() - 1] == tokens[tokens.len() - 1]@);
    assert forall|i: int| 0 <= i < tokens.len() - 1 implies #[trigger] tokens[i].token_type != TokenType::EndOfFile by {
        assert(views[i] == tokens[i]@);
        assert(scan_all(src, keyword_table(), initial_state(errors)).tokens[i].token_type != TokenType::EndOfFile);
    }
    assert(tokens.len() - 1 < tokens.len() && tokens[tokens.len() - 1].token_type == TokenType::EndOfFile);
}

/// Parses a sequence of tokens into a syntax tree.
pub struct Parser {
    tokens: Vec<Token>,
    current: usize,
}

/// Whether no end-of-file token stands at a position from `p` up to, not
/// including, `q`.
pub open spec fn no_end_between(ts: Seq<Token>, p: int, q: int) -> bool {
    forall|j: int| p <= j < q ==> #[trigger] ts[j].token_type != TokenType::EndOfFile
}

/// Whether an end-of-file token stands at or after `p`.
pub open spec fn eof_from(ts: Seq<Token>, p: int) -> bool {
    exists|j: int| p <= j < ts.len() && ts[j].token_type == TokenType::EndOfFile
}

impl Parser {
    /// The tokens being parsed.
    pub closed spec fn token_list(&self) -> Seq<Token> {
        self.tokens@
    }

    /// The position of the next token to look at.
    pub closed spec fn position(&self) -> int {
        self.current as int
    }

    /// The parser's internal consistency: an end-of-file token lies at or
    /// after the current position, so the parser never runs off the tokens.
    pub closed spec fn wf(&self) -> bool {
        &&& self.current < self.tokens@.len()
        &&& eof_from(self.tokens@, self.current as int)
    }

    /// A step from `self` to `after` kept the tokens and the consistency, did
    /// not go back, and passed no end-of-file token.
    pub closed spec fn steps_to(&self, after: &Parser) -> bool {
        &&& after.wf()
        &&& after.tokens == self.tokens
        &&& self.current <= after.current
        &&& no_end_between(self.tokens@, self.current as int, after.current as int)
    }

    /// A parser at the first of `tokens`, which must hold an end-of-file token.
    #[verifier::spinoff_prover]
    pub fn new(tokens: Vec<Token>) -> (r: Self)
        requires
            eof_from(tokens@, 0),
        ensures
            r.wf(),
            r.token_list() == tokens@,
            r.position() == 0,
    {
        Parser { tokens, current: 0 }
    }

    /// Parses the whole token sequence into a program. Each declaration that
    /// fails is recorded and followed by recovery to the next statement
    /// boundary; the result is the statements if none failed, else every error
    /// in the order met. Parsing stops at the first end-of-file token from the
    /// starting position and never reads past it.
    #[verifier::loop_isolation(false)]
    #[verifier::spinoff_prover]
    pub fn parse_program(&mut self) -> (r: Result<ast::Program, Vec<ParseError>>)
        requires
            old(self).wf(),
        ensures
            old(self).steps_to(final(self)),
            program_outcome(r) == program(old(self).token_list(), old(self).position()),
            final(self).position() == program_from(old(self).token_list(), old(self).position(), Seq::empty(), Seq::empty()).end,
            final(self).token_list() == old(self).token_list(),
            0 <= final(self).position() < final(self).token_list().len(),
            final(self).token_list()[final(self).position()].token_type == TokenType::EndOfFile,
            no_end_between(old(self).token_list(), old(self).position(), final(self).position()),
    {
        let ghost ts = self.tokens@;
        let ghost p0 = self.current as int;
        let mut statements: Vec<ast::Stmt> = Vec::new();
        let mut errors: Vec<ParseError> = Vec::new();
        proof {
            reveal(view_stmts);
            assert(view_stmts(statements) =~= Seq::empty());
            assert(view_errors(errors@) =~= Seq::empty());
        }
        while !self.is_at_end()
            invariant
                old(self).steps_to(self),
                ts == self.tokens@,
                program_from(ts, self.current as int, view_stmts(statements), view_errors(errors@))
                    == program_from(ts, p0, Seq::empty(), Seq::empty()),
            decreases rem(ts, self.current as int),
        {
            if self.peek().token_type == TokenType::EndOfFile && self.current == self.tokens.len() - 1 {
                break;
            }
            let ghost cur = self.current as int;
            let ghost acc_s = view_stmts(statements);
            let ghost acc_e = view_errors(errors@);
            match self.declaration() {
                Ok(stmt) => {
                    statements.push(stmt);
                    proof {
                        reveal(view_stmts);
                        assert(view_stmts(statements) =~= acc_s.push(view_stmt(stmt)));
                    }
                },
                Err(e) => {
                    let ghost after = self.current as int;
                    errors.push(e);
                    assert(view_errors(errors@) =~= acc_e.push(e@));
                    self.synchronize();
                    proof {
                        if !at_end(ts, after) {
                            lemma_synchronize_from_forward(ts, after + 1);
                        }
                    }
                },
            }
        }
        if errors.len() == 0 {
            Ok(statements)
        } else {
            Err(errors)
        }
    }

    /// Recovers after an error: skips the token at fault, then skips tokens
    /// until just after a `;`, at a token that starts a statement, or at the end.
    #[verifier::loop_isolation(false)]
    #[verifier::spinoff_prover]
    fn synchronize(&mut self)
        requires
            old(self).wf(),
        ensures
            old(self).steps_to(final(self)),
            final(self).current == synchronize(old(self).tokens@, old(self).current as int),
    {
        let ghost ts = self.tokens@;
        let ghost p0 = self.current as int;
        self.advance();
        while !self.is_at_end()
            invariant
                old(self).steps_to(self),
                ts == self.tokens@,
                at_end(ts, p0) ==> self.current == p0,
                !at_end(ts, p0) ==> p0 < self.current && synchronize_from(ts, self.current as int) == synchronize(ts, p0),
            decreases rem(ts, self.current as int),
        {
            if self.previous().token_type == TokenType::Semicolon {
                return;
            }
            match self.peek().token_type {
                TokenType::Fn | TokenType::Let | TokenType::Struct | TokenType::Enum | TokenType::If
                | TokenType::While | TokenType::For | TokenType::Return | TokenType::Match
                | TokenType::LeftBrace | TokenType::RightBrace => return,
                _ => {},
            }
            self.advance();
        }
    }

    // --- Token navigation ---

    #[verifier::spinoff_prover]
    fn peek(&self) -> (r: &Token)
        requires
            self.wf(),
        ensures
            *r == self.tokens@[self.current as int],
    {
        &self.tokens[self.current]
    }

    #[verifier::spinoff_prover]
    fn previous(&self) -> (r: Token)
        requires
            0 < self.current <= self.tokens@.len(),
        ensures
            r == self.tokens@[self.current - 1],
    {
        self.tokens[self.current - 1].clone()
    }

    #[verifier::spinoff_prover]
    fn is_at_end(&self) -> (r: bool)
        requires
            self.wf(),
        ensures
            r == at_end(self.tokens@, self.current as int),
    {
        self.peek().token_type == TokenType::EndOfFile
    }

    #[verifier::spinoff_prover]
    fn advance(&mut self) -> (r: Token)
        requires
            old(self).wf(),
        ensures
            old(self).steps_to(final(self)),
            final(self).current == if at_end(old(self).tokens@, old(self).current as int) {
                old(self).current as int
            } else {
                old(self).current + 1
            },
            r == final(self).tokens@[final(self).current - 1] || final(self).current == 0,
    {
        let n = self.tokens.len();
        if !self.is_at_end() {
            proof {
                let ts = self.tokens@;
                let j = choose|j: int| self.current <= j < ts.len() && ts[j].token_type == TokenType::EndOfFile;
                assert(j != self.current);
                assert(eof_from(ts, self.current + 1)) by {
                    assert(self.current + 1 <= j < ts.len() && ts[j].token_type == TokenType::EndOfFile);
                }
            }
            self.current = self.current + 1;
        }
        if self.current == 0 {
            return self.peek().clone();
        }
        self.previous()
    }

    /// Takes the current token, which is known not to be the end-of-file token.
    #[verifier::spinoff_prover]
    fn take(&mut self) -> (r: Token)
        requires
            old(self).wf(),
            !at_end(old(self).tokens@, old(self).current as int),
        ensures
            old(self).steps_to(final(self)),
            final(self).current == old(self).current + 1,
            r == old(self).tokens@[old(self).current as int],
    {
        self.advance()
    }

    #[verifier::spinoff_prover]
    fn check(&self, token_type: TokenType) -> (r: bool)
        requires
            self.wf(),
        ensures
            r == check(self.tokens@, self.current as int, token_type),
    {
        if self.is_at_end() {
            return false;
        }
        self.peek().token_type == token_type
    }

    #[verifier::spinoff_prover]
    fn check_next(&self, token_type: TokenType) -> (r: bool)
        requires
            self.wf(),
        ensures
            r == check_next(self.tokens@, self.current as int, token_type),
    {
        let n = self.tokens.len();
        if self.is_at_end() || self.current + 1 >= n {
            return false;
        }
        self.tokens[self.current + 1].token_type == token_type
    }

    #[verifier::spinoff_prover]
    fn match_token(&mut self, types: &[TokenType]) -> (r: bool)
        requires
            old(self).wf(),
        ensures
            old(self).steps_to(final(self)),
            r == check_any(old(self).tokens@, old(self).current as int, types@),
            final(self).current == old(self).current + if r { 1int } else { 0int },
    {
        let mut i: usize = 0;
        while i < types.len()
            invariant
                *self == *old(self),
                self.wf(),
                i <= types@.len(),
                forall|j: int| 0 <= j < i ==> !check(self.tokens@, self.current as int, #[trigger] types@[j]),
            decreases types.len() - i,
        {
            if self.check(types[i]) {
                self.take();
                return true;
            }
            i = i + 1;
        }
        proof {
            if check_any(self.tokens@, self.current as int, types@) {
                let k = types@.index_of(self.tokens@[self.current as int].token_type);
                assert(!check(self.tokens@, self.current as int, types@[k]));
            }
        }
        false
    }

    #[verifier::spinoff_prover]
    fn match_one(&mut self, token_type: TokenType) -> (r: bool)
        requires
            old(self).wf(),
        ensures
            old(self).steps_to(final(self)),
            r == check(old(self).tokens@, old(self).current as int, token_type),
            final(self).current == old(self).current + if r { 1int } else { 0int },
    {
        if self.check(token_type) {
            self.take();
            true
        } else {
            false
        }
    }

    #[verifier::spinoff_prover]
    fn error_here(&self, message: &str) -> (e: ParseError)
        requires
            self.wf(),
        ensures
            e@ == error_at(self.tokens@, self.current as int, message@),
    {
        let t = self.peek();
        ParseError::new(Some(t), message, t.line)
    }

    #[verifier::spinoff_prover]
    fn consume(&mut self, token_type: TokenType, message: &str) -> (r: Result<Token, ParseError>)
        requires
            old(self).wf(),
        ensures
            old(self).steps_to(final(self)),
            follows(
                outcome_by(r, |t: Token| t),
                *old(self),
                *final(self),
                consume(old(self).tokens@, old(self).current as int, token_type, message@),
            ),
    {
        if self.check(token_type) {
            Ok(self.take())
        } else {
            Err(self.error_here(message))
        }
    }

    // --- Paths and types ---

    /// Parses a path: `IDENTIFIER ((:: | .) IDENTIFIER)*`.
    #[verifier::spinoff_prover]
    fn parse_path_expression(&mut self) -> (r: Result<ast::PathExpression, ParseError>)
        requires
            old(self).wf(),
        ensures
            old(self).steps_to(final(self)),
            follows(outcome(r), *old(self), *final(self), path(old(self).tokens@, old(self).current as int)),
            r is Ok ==> old(self).current < final(self).current,
    {
        proof {
            reveal(view_path);
        }
        let ghost ts = self.tokens@;
        let ghost p0 = self.current as int;
        let mut segments: Vec<Token> = Vec::new();
        let first = self.consume(TokenType::Identifier, "Expect identifier for path segment.")?;
        segments.push(first);
        assert(segments@ =~= seq![ts[p0]]);
        while self.check(TokenType::DoubleColon) || self.check(TokenType::Dot)
            invariant
                old(self).steps_to(self),
                ts == self.tokens@,
                p0 == old(self).current,
                p0 + 1 <= self.current,
                check(ts, p0, TokenType::Identifier),
                bump(path_rest(ts, self.current as int, segments@), (self.current - (p0 + 1)) as nat)
                    == path_rest(ts, p0 + 1, seq![ts[p0]]),
            decreases rem(ts, self.current as int),
        {
            if self.check(TokenType::DoubleColon) {
                self.take();
            } else if self.check(TokenType::Dot) {
                self.take();
            }
            let segment = self.consume(TokenType::Identifier, "Expect identifier after '::' or '.'.")?;
            segments.push(segment);
        }
        Ok(ast::PathExpression { segments })
    }

    /// Parses a type: a path optionally followed by `?`.
    #[verifier::spinoff_prover]
    fn parse_type_annotation(&mut self) -> (r: Result<ast::TypeAnnotation, ParseError>)
        requires
            old(self).wf(),
        ensures
            old(self).steps_to(final(self)),
            follows(outcome(r), *old(self), *final(self), type_annotation(old(self).tokens@, old(self).current as int)),
            r is Ok ==> old(self).current < final(self).current,
    {
        proof {
            reveal(view_type);
            reveal(view_path);
        }
        let name = self.parse_path_expression()?;
        let is_optional = self.match_one(TokenType::Question);
        Ok(ast::TypeAnnotation { name, is_optional })
    }

    // --- Match patterns ---

    /// Parses a match pattern.
    #[verifier::loop_isolation(false)]
    #[verifier::spinoff_prover]
    fn parse_match_pattern(&mut self) -> (r: Result<ast::MatchPattern, ParseError>)
        requires
            old(self).wf(),
        ensures
            old(self).steps_to(final(self)),
            follows(outcome(r), *old(self), *final(self), pattern(old(self).tokens@, old(self).current as int)),
            r is Ok ==> old(self).current < final(self).current,
        decreases rem(old(self).tokens@, old(self).current as int), 1nat,
    {
        proof {
            reveal(view_pattern);
            reveal(view_path);
            reveal(view_pattern_fields);
            reveal(view_patterns);
        }
        let ghost ts = self.tokens@;
        let ghost p0 = self.current as int;
        let current_token_for_error = self.peek().clone();
        if self.match_one(TokenType::False) {
            return Ok(ast::MatchPattern::Literal(LiteralValue::Boolean(false)));
        }
        if self.match_one(TokenType::True) {
            return Ok(ast::MatchPattern::Literal(LiteralValue::Boolean(true)));
        }
        if self.match_one(TokenType::Null) {
            return Ok(ast::MatchPattern::Literal(LiteralValue::Null));
        }
        if self.check(TokenType::Number) || self.check(TokenType::String) {
            let token_with_literal = self.take();
            match token_with_literal.literal {
                Some(lv) => return Ok(ast::MatchPattern::Literal(lv)),
                None => {
                    return Err(
                        ParseError::new(
                            Some(&token_with_literal),
                            "Expected literal value for pattern.",
                            token_with_literal.line,
                        ),
                    )
                },
            }
        }
        if self.check(TokenType::Identifier) {
            let path_expr = self.parse_path_expression()?;
            let ghost q = self.current as int;
            if self.check(TokenType::LeftBrace) {
                let left_brace = self.consume(TokenType::LeftBrace, "Expect '{' for struct pattern.")?;
                let mut fields: Vec<ast::StructPatternField> = Vec::new();
                if !self.check(TokenType::RightBrace) {
                    fields = self.pattern_fields()?;
                } else {
                    assert(view_pattern_fields(fields) =~= Seq::empty());
                }
                let right_brace = self.consume(TokenType::RightBrace, "Expect '}' after struct pattern fields.")?;
                return Ok(ast::MatchPattern::StructPattern { name: path_expr, left_brace, fields, right_brace });
            } else if self.check(TokenType::LeftParen) {
                let left_paren = self.consume(TokenType::LeftParen, "Expect '(' for enum variant pattern fields.")?;
                let mut patterns: Vec<ast::MatchPattern> = Vec::new();
                if !self.check(TokenType::RightParen) {
                    patterns = self.pattern_list()?;
                } else {
                    assert(view_patterns(patterns) =~= Seq::empty());
                }
                let right_paren = self.consume(TokenType::RightParen, "Expect ')' after enum variant pattern fields.")?;
                return Ok(
                    ast::MatchPattern::EnumVariantPattern {
                        path: path_expr,
                        fields: Some(ast::EnumVariantPatternFields::Tuple(left_paren, patterns, right_paren)),
                    },
                );
            } else {
                if path_expr.segments.len() == 1 {
                    let mut segments = path_expr.segments;
                    let first = segments.remove(0);
                    return Ok(ast::MatchPattern::Identifier(first));
                } else {
                    return Ok(ast::MatchPattern::EnumVariantPattern { path: path_expr, fields: None });
                }
            }
        }
        Err(
            ParseError::new(
                Some(&current_token_for_error),
                "Unsupported match pattern.",
                current_token_for_error.line,
            ),
        )
    }

    /// The fields of a struct pattern: `IDENTIFIER (: PATTERN)?` separated by
    /// commas, a trailing comma allowed before `}`.
    #[verifier::loop_isolation(false)]
    #[verifier::spinoff_prover]
    fn pattern_fields(&mut self) -> (r: Result<Vec<ast::StructPatternField>, ParseError>)
        requires
            old(self).wf(),
        ensures
            old(self).steps_to(final(self)),
            follows(
                outcome_by(r, |v: Vec<ast::StructPatternField>| view_pattern_fields(v)),
                *old(self),
                *final(self),
                pattern_fields_from(old(self).tokens@, old(self).current as int, Seq::empty()),
            ),
        decreases rem(old(self).tokens@, old(self).current as int), 1nat,
    {
        proof {
            reveal(view_pattern_fields);
            reveal(view_pattern_field);
            reveal(view_pattern);
        }
        let ghost ts = self.tokens@;
        let ghost p0 = self.current as int;
        let mut fields: Vec<ast::StructPatternField> = Vec::new();
        assert(view_pattern_fields(fields) =~= Seq::empty());
        loop
            invariant
                old(self).steps_to(self),
                ts == self.tokens@,
                p0 <= self.current,
                bump(pattern_fields_from(ts, self.current as int, view_pattern_fields(fields)), (self.current - p0) as nat)
                    == pattern_fields_from(ts, p0, Seq::empty()),
            decreases rem(ts, self.current as int),
        {
            let ghost cur = self.current as int;
            let ghost acc = view_pattern_fields(fields);
            let field_name = self.consume(TokenType::Identifier, "Expect field name in struct pattern.")?;
            let mut colon_and_pattern: Option<(Token, Box<ast::MatchPattern>)> = None;
            if self.match_one(TokenType::Colon) {
                let colon_tok = self.previous();
                let pattern = self.parse_match_pattern()?;
                colon_and_pattern = Some((colon_tok, Box::new(pattern)));
            }
            fields.push(ast::StructPatternField { field_name, colon_and_pattern });
            assert(view_pattern_fields(fields) =~= acc.push(fields@.last()@));
            if !self.match_one(TokenType::Comma) {
                assert(pattern_fields_from(ts, p0, Seq::empty()) == ok(view_pattern_fields(fields), (self.current - p0) as nat));
                break;
            }
            if self.check(TokenType::RightBrace) {
                assert(pattern_fields_from(ts, p0, Seq::empty()) == ok(view_pattern_fields(fields), (self.current - p0) as nat));
                break;
            }
        }
        Ok(fields)
    }

    /// The patterns of a tuple-like enum variant pattern, separated by commas,
    /// a trailing comma allowed before `)`.
    #[verifier::loop_isolation(false)]
    #[verifier::spinoff_prover]
    fn pattern_list(&mut self) -> (r: Result<Vec<ast::MatchPattern>, ParseError>)
        requires
            old(self).wf(),
        ensures
            old(self).steps_to(final(self)),
            follows(
                outcome_by(r, |v: Vec<ast::MatchPattern>| view_patterns(v)),
                *old(self),
                *final(self),
                pattern_list_from(old(self).tokens@, old(self).current as int, Seq::empty()),
            ),
        decreases rem(old(self).tokens@, old(self).current as int), 2nat,
    {
        proof {
            reveal(view_patterns);
            reveal(view_pattern);
        }
        let ghost ts = self.tokens@;
        let ghost p0 = self.current as int;
        let mut patterns: Vec<ast::MatchPattern> = Vec::new();
        assert(view_patterns(patterns) =~= Seq::empty());
        loop
            invariant
                old(self).steps_to(self),
                ts == self.tokens@,
                p0 <= self.current,
                bump(pattern_list_from(ts, self.current as int, view_patterns(patterns)), (self.current - p0) as nat)
                    == pattern_list_from(ts, p0, Seq::empty()),
            decreases rem(ts, self.current as int),
        {
            let ghost acc = view_patterns(patterns);
            let pattern = self.parse_match_pattern()?;
            patterns.push(pattern);
            assert(view_patterns(patterns) =~= acc.push(patterns@.last()@));
            if !self.match_one(TokenType::Comma) {
                assert(pattern_list_from(ts, p0, Seq::empty()) == ok(view_patterns(patterns), (self.current - p0) as nat));
                break;
            }
            if self.check(TokenType::RightParen) {
                assert(pattern_list_from(ts, p0, Seq::empty()) == ok(view_patterns(patterns), (self.current - p0) as nat));
                break;
            }
        }
        Ok(patterns)
    }


    // --- Annotations ---

    /// Parses the annotations that follow, as many as there are.
    #[verifier::loop_isolation(false)]
    #[verifier::spinoff_prover]
    fn parse_annotations_list(&mut self) -> (r: Result<Vec<ast::AnnotationNode>, ParseError>)
        requires
            old(self).wf(),
        ensures
            old(self).steps_to(final(self)),
            follows(
                outcome_by(r, |v: Vec<ast::AnnotationNode>| view_annotations(v)),
                *old(self),
                *final(self),
                annotations_from(old(self).tokens@, old(self).current as int, Seq::empty()),
            ),
        decreases rem(old(self).tokens@, old(self).current as int), 15nat,
    {
        proof {
            reveal(view_annotations);
            reveal(view_annotation);
            reveal(annotations_from);
            reveal(annotation_rest);
        }
        let ghost ts = self.tokens@;
        let ghost p0 = self.current as int;
        let mut annotations: Vec<ast::AnnotationNode> = Vec::new();
        assert(view_annotations(annotations) =~= Seq::empty());
        while self.check(TokenType::At)
            invariant
                old(self).steps_to(self),
                ts == self.tokens@,
                p0 <= self.current,
                bump(annotations_from(ts, self.current as int, view_annotations(annotations)), (self.current - p0) as nat)
                    == annotations_from(ts, p0, Seq::empty()),
            decreases rem(ts, self.current as int),
        {
            let ghost acc = view_annotations(annotations);
            let a = self.parse_annotation()?;
            annotations.push(a);
            assert(view_annotations(annotations) =~= acc.push(view_annotation(annotations@.last())));
        }
        Ok(annotations)
    }

    /// Parses one annotation: `@name`, `@name(arguments)` or `@name = value`.
    #[verifier::loop_isolation(false)]
    #[verifier::spinoff_prover]
    fn parse_annotation(&mut self) -> (r: Result<ast::AnnotationNode, ParseError>)
        requires
            old(self).wf(),
        ensures
            old(self).steps_to(final(self)),
            follows(outcome(r), *old(self), *final(self), annotation(old(self).tokens@, old(self).current as int)),
            r is Ok ==> old(self).current < final(self).current,
        decreases rem(old(self).tokens@, old(self).current as int), 2nat,
    {
        proof {
            reveal(view_annotation);
            reveal(view_expressions);
            reveal(view_expression);
            reveal(view_path);
            reveal(annotation_rest);
            reveal(annotation_args_from);
            reveal(expression);
        }
        let ghost ts = self.tokens@;
        let ghost p0 = self.current as int;
        let at_token = self.consume(TokenType::At, "Expect '@' for annotation.")?;
        let name_path = self.parse_path_expression()?;
        let ghost q = self.current as int;
        if self.match_one(TokenType::LeftParen) {
            let mut args_vec: Vec<ast::Expression> = Vec::new();
            if !self.check(TokenType::RightParen) {
                let first = self.expression(true)?;
                args_vec.push(first);
                let ghost s0 = self.current as int;
                let ghost first_view = view_expression(args_vec@[0]);
                assert(view_expressions(args_vec) =~= seq![first_view]);
                loop
                    invariant
                        old(self).steps_to(self),
                        ts == self.tokens@,
                        p0 < s0 <= self.current,
                        bump(annotation_args_from(ts, self.current as int, view_expressions(args_vec)), (self.current - s0) as nat)
                            == annotation_args_from(ts, s0, seq![first_view]),
                    decreases rem(ts, self.current as int),
                {
                    if !self.match_one(TokenType::Comma) {
                        break;
                    }
                    let ghost acc = view_expressions(args_vec);
                    let next = self.expression(true)?;
                    args_vec.push(next);
                    assert(view_expressions(args_vec) =~= acc.push(view_expression(args_vec@.last())));
                }
                assert(annotation_args_from(ts, self.current as int, view_expressions(args_vec))
                    == ok(view_expressions(args_vec), 0));
            } else {
                assert(view_expressions(args_vec) =~= Seq::empty());
            }
            let ghost args_end = self.current as int;
            self.consume(TokenType::RightParen, "Expect ')' after annotation arguments.")?;
            let r = ast::AnnotationNode { at_token, name: name_path, arguments: Some(args_vec) };
            proof {
                assert(view_annotation(r).arguments->0 =~= view_expressions(args_vec));
                assert(annotation_rest(ts, ts[p0], p0 + 1) == ok(view_annotation(r), (args_end + 1 - (p0 + 1)) as nat));
            }
            Ok(r)
        } else if self.match_one(TokenType::Equal) {
            let value_expr = self.expression(true)?;
            let mut one: Vec<ast::Expression> = Vec::new();
            one.push(value_expr);
            let r = ast::AnnotationNode { at_token, name: name_path, arguments: Some(one) };
            proof {
                assert(view_annotation(r).arguments->0 =~= seq![view_expression(one@[0])]);
            }
            Ok(r)
        } else {
            let r = ast::AnnotationNode { at_token, name: name_path, arguments: None };
            assert(r@ == view_annotation(r));
            Ok(r)
        }
    }

    // --- Declarations ---

    /// Parses a declaration (`fn`, `let`, `struct`, `enum`, with annotations and
    /// `async`) or else a statement.
    #[verifier::spinoff_prover]
    fn declaration(&mut self) -> (r: Result<ast::Stmt, ParseError>)
        requires
            old(self).wf(),
        ensures
            old(self).steps_to(final(self)),
            follows(outcome(r), *old(self), *final(self), declaration(old(self).tokens@, old(self).current as int)),
            r is Ok ==> old(self).current < final(self).current,
        decreases rem(old(self).tokens@, old(self).current as int), 20nat,
    {
        proof {
            reveal(view_annotations);
            reveal(view_annotation);
            reveal(declaration);
            reveal(annotations_from);
            reveal(enum_declaration);
            reveal(fn_declaration);
            reveal(let_declaration);
            reveal(statement);
            reveal(struct_declaration);
        }
        let ghost ts = self.tokens@;
        let ghost p0 = self.current as int;
        let annotations = self.parse_annotations_list()?;
        let mut async_tok: Option<Token> = None;
        if self.check(TokenType::Async) {
            let t = self.take();
            if !self.check(TokenType::Fn) {
                return Err(ParseError::new(Some(&t), "Expect 'fn' after 'async'.", t.line));
            }
            async_tok = Some(t);
        }
        if self.match_one(TokenType::Fn) {
            self.fn_declaration(annotations, async_tok)
        } else if self.match_one(TokenType::Let) {
            match &async_tok {
                Some(t) => {
                    return Err(ParseError::new(Some(t), "'async' not applicable to 'let' declaration.", t.line));
                },
                None => {},
            }
            self.let_declaration(annotations)
        } else if self.match_one(TokenType::Struct) {
            match &async_tok {
                Some(t) => {
                    return Err(ParseError::new(Some(t), "'async' not applicable to 'struct' declaration.", t.line));
                },
                None => {},
            }
            self.struct_declaration(annotations)
        } else if self.match_one(TokenType::Enum) {
            match &async_tok {
                Some(t) => {
                    return Err(ParseError::new(Some(t), "'async' not applicable to 'enum' declaration.", t.line));
                },
                None => {},
            }
            self.enum_declaration(annotations)
        } else {
            if annotations.len() > 0 && async_tok.is_none() {
                let last = &annotations[annotations.len() - 1];
                proof {
                    assert(view_annotations(annotations).last() == view_annotation(*last));
                }
                return Err(
                    ParseError::new(Some(&last.at_token), "Expected declaration after annotations.", last.at_token.line),
                );
            }
            match &async_tok {
                Some(t) => {
                    return Err(
                        ParseError::new(Some(t), "Expect 'fn' after 'async' (declaration not found).", t.line),
                    );
                },
                None => {},
            }
            self.statement()
        }
    }

    /// Parses the rest of a function declaration; its `fn` has just been taken.
    #[verifier::spinoff_prover]
    fn fn_declaration(&mut self, annotations: Vec<ast::AnnotationNode>, async_token: Option<Token>) -> (r: Result<ast::Stmt, ParseError>)
        requires
            old(self).wf(),
            0 < old(self).current,
        ensures
            old(self).steps_to(final(self)),
            follows(
                outcome(r),
                *old(self),
                *final(self),
                fn_declaration(
                    old(self).tokens@,
                    old(self).current as int,
                    view_annotations(annotations),
                    async_token,
                    old(self).tokens@[old(self).current - 1],
                ),
            ),
            r is Ok ==> old(self).current < final(self).current,
        decreases rem(old(self).tokens@, old(self).current as int), 1nat,
    {
        proof {
            reveal(view_stmt);
            reveal(view_annotations);
            reveal(view_else);
            reveal(view_else_ifs);
            reveal(view_expression);
            reveal(view_fields);
            reveal(view_opt_expression);
            reveal(view_opt_type);
            reveal(view_parameters);
            reveal(view_stmts);
            reveal(view_variants);
            reveal(fn_declaration);
            reveal(block_from);
            reveal(parameters);
        }
        let fn_token = self.previous();
        let name = self.consume(TokenType::Identifier, "Expect function name.")?;
        self.consume(TokenType::LeftParen, "Expect '(' after function name.")?;
        let params = self.parse_parameters()?;
        self.consume(TokenType::RightParen, "Expect ')' after parameters.")?;
        let mut return_type_arrow: Option<Token> = None;
        let mut return_type: Option<ast::TypeAnnotation> = None;
        if self.match_one(TokenType::Arrow) {
            return_type_arrow = Some(self.previous());
            return_type = Some(self.parse_type_annotation()?);
        }
        let body_left_brace = self.consume(TokenType::LeftBrace, "Expect '{' before function body.")?;
        let body_statements = self.block_statement_list()?;
        let body_right_brace = self.consume(TokenType::RightBrace, "Expect '}' after function body.")?;
        Ok(
            ast::Stmt::FunctionDecl {
                annotations,
                async_token,
                fn_token,
                name,
                params,
                return_type_arrow,
                return_type,
                body_left_brace,
                body: body_statements,
                body_right_brace,
            },
        )
    }

    /// Parses the parameters of a function, up to its `)`.
    #[verifier::spinoff_prover]
    fn parse_parameters(&mut self) -> (r: Result<Vec<ast::Parameter>, ParseError>)
        requires
            old(self).wf(),
        ensures
            old(self).steps_to(final(self)),
            follows(
                outcome_by(r, |v: Vec<ast::Parameter>| view_parameters(v)),
                *old(self),
                *final(self),
                parameters(old(self).tokens@, old(self).current as int),
            ),
        decreases rem(old(self).tokens@, old(self).current as int), 17nat,
    {
        proof {
            reveal(view_parameters);
            reveal(view_parameter);
            reveal(parameters);
            reveal(parameters_from);
        }
        let mut parameters: Vec<ast::Parameter> = Vec::new();
        if !self.check(TokenType::RightParen) {
            parameters = self.parameter_list()?;
        } else {
            assert(view_parameters(parameters) =~= Seq::empty());
        }
        Ok(parameters)
    }

    /// Parameters separated by commas, a trailing comma allowed before `)`.
    #[verifier::loop_isolation(false)]
    #[verifier::spinoff_prover]
    fn parameter_list(&mut self) -> (r: Result<Vec<ast::Parameter>, ParseError>)
        requires
            old(self).wf(),
        ensures
            old(self).steps_to(final(self)),
            follows(
                outcome_by(r, |v: Vec<ast::Parameter>| view_parameters(v)),
                *old(self),
                *final(self),
                parameters_from(old(self).tokens@, old(self).current as int, Seq::empty()),
            ),
        decreases rem(old(self).tokens@, old(self).current as int), 16nat,
    {
        proof {
            reveal(view_parameters);
            reveal(view_parameter);
            reveal(view_annotations);
            reveal(view_opt_type);
            reveal(parameters_from);
            reveal(annotations_from);
        }
        let ghost ts = self.tokens@;
        let ghost p0 = self.current as int;
        let mut parameters: Vec<ast::Parameter> = Vec::new();
        assert(view_parameters(parameters) =~= Seq::empty());
        loop
            invariant
                old(self).steps_to(self),
                ts == self.tokens@,
                p0 <= self.current,
                bump(parameters_from(ts, self.current as int, view_parameters(parameters)), (self.current - p0) as nat)
                    == parameters_from(ts, p0, Seq::empty()),
            decreases rem(ts, self.current as int),
        {
            let ghost acc = view_parameters(parameters);
            let param_annotations = self.parse_annotations_list()?;
            let name = self.consume(TokenType::Identifier, "Expect parameter name.")?;
            let mut colon_token: Option<Token> = None;
            let mut type_ann: Option<ast::TypeAnnotation> = None;
            if self.match_one(TokenType::Colon) {
                colon_token = Some(self.previous());
                type_ann = Some(self.parse_type_annotation()?);
            }
            parameters.push(ast::Parameter { annotations: param_annotations, name, colon_token, type_ann });
            assert(view_parameters(parameters) =~= acc.push(parameters@.last()@));
            if !self.match_one(TokenType::Comma) {
                assert(parameters_from(ts, p0, Seq::empty()) == ok(view_parameters(parameters), (self.current - p0) as nat));
                break;
            }
            if self.check(TokenType::RightParen) {
                assert(parameters_from(ts, p0, Seq::empty()) == ok(view_parameters(parameters), (self.current - p0) as nat));
                break;
            }
        }
        Ok(parameters)
    }

    /// Field declarations separated by commas, up to `}`.
    #[verifier::loop_isolation(false)]
    #[verifier::spinoff_prover]
    fn field_declarations(&mut self, name_message: &str, separator_message: &str) -> (r: Result<Vec<ast::FieldDecl>, ParseError>)
        requires
            old(self).wf(),
        ensures
            old(self).steps_to(final(self)),
            follows(
                outcome_by(r, |v: Vec<ast::FieldDecl>| view_fields(v)),
                *old(self),
                *final(self),
                fields_from(old(self).tokens@, old(self).current as int, Seq::empty(), name_message@, separator_message@),
            ),
        decreases rem(old(self).tokens@, old(self).current as int), 16nat,
    {
        proof {
            reveal(view_fields);
            reveal(view_field);
            reveal(view_annotations);
            reveal(view_type);
            reveal(fields_from);
            reveal(annotations_from);
        }
        let ghost ts = self.tokens@;
        let ghost p0 = self.current as int;
        let mut fields: Vec<ast::FieldDecl> = Vec::new();
        assert(view_fields(fields) =~= Seq::empty());
        while !self.check(TokenType::RightBrace) && !self.is_at_end()
            invariant
                old(self).steps_to(self),
                ts == self.tokens@,
                p0 <= self.current,
                bump(
                    fields_from(ts, self.current as int, view_fields(fields), name_message@, separator_message@),
                    (self.current - p0) as nat,
                ) == fields_from(ts, p0, Seq::empty(), name_message@, separator_message@),
            decreases rem(ts, self.current as int),
        {
            let ghost acc = view_fields(fields);
            let field_annotations = self.parse_annotations_list()?;
            let field_name = self.consume(TokenType::Identifier, name_message)?;
            let colon_token = self.consume(TokenType::Colon, "Expect ':' after field name.")?;
            let type_ann = self.parse_type_annotation()?;
            fields.push(ast::FieldDecl { annotations: field_annotations, name: field_name, colon_token, type_ann });
            assert(view_fields(fields) =~= acc.push(fields@.last()@));
            if !self.match_one(TokenType::Comma) {
                if !self.check(TokenType::RightBrace) {
                    return Err(self.error_here(separator_message));
                }
                assert(fields_from(ts, p0, Seq::empty(), name_message@, separator_message@) == ok(
                    view_fields(fields),
                    (self.current - p0) as nat,
                ));
                break;
            }
            if self.check(TokenType::RightBrace) {
                assert(fields_from(ts, p0, Seq::empty(), name_message@, separator_message@) == ok(
                    view_fields(fields),
                    (self.current - p0) as nat,
                ));
                break;
            }
        }
        Ok(fields)
    }

    /// Parses the rest of a struct declaration; its `struct` has just been taken.
    #[verifier::spinoff_prover]
    fn struct_declaration(&mut self, annotations: Vec<ast::AnnotationNode>) -> (r: Result<ast::Stmt, ParseError>)
        requires
            old(self).wf(),
            0 < old(self).current,
        ensures
            old(self).steps_to(final(self)),
            follows(
                outcome(r),
                *old(self),
                *final(self),
                struct_declaration(
                    old(self).tokens@,
                    old(self).current as int,
                    view_annotations(annotations),
                    old(self).tokens@[old(self).current - 1],
                ),
            ),
            r is Ok ==> old(self).current < final(self).current,
        decreases rem(old(self).tokens@, old(self).current as int), 1nat,
    {
        proof {
            reveal(view_stmt);
            reveal(view_annotations);
            reveal(view_else);
            reveal(view_else_ifs);
            reveal(view_expression);
            reveal(view_fields);
            reveal(view_opt_expression);
            reveal(view_opt_type);
            reveal(view_parameters);
            reveal(view_stmts);
            reveal(view_variants);
            reveal(struct_declaration);
            reveal(fields_from);
        }
        let struct_token = self.previous();
        let name = self.consume(TokenType::Identifier, "Expect struct name.")?;
        let left_brace = self.consume(TokenType::LeftBrace, "Expect '{' before struct fields.")?;
        let fields = self.field_declarations("Expect field name.", "Expect ',' or '}' after field declaration.")?;
        let right_brace = self.consume(TokenType::RightBrace, "Expect '}' after struct fields.")?;
        Ok(ast::Stmt::StructDecl { annotations, struct_token, name, left_brace, fields, right_brace })
    }

    /// The types of a tuple-like enum variant, separated by commas, a trailing
    /// comma allowed before `)`.
    #[verifier::loop_isolation(false)]
    #[verifier::spinoff_prover]
    fn tuple_types(&mut self) -> (r: Result<Vec<ast::TypeAnnotation>, ParseError>)
        requires
            old(self).wf(),
        ensures
            old(self).steps_to(final(self)),
            follows(
                outcome_by(r, |v: Vec<ast::TypeAnnotation>| view_types(v)),
                *old(self),
                *final(self),
                tuple_types_from(old(self).tokens@, old(self).current as int, Seq::empty()),
            ),
    {
        proof {
            reveal(view_types);
            reveal(view_type);
        }
        let ghost ts = self.tokens@;
        let ghost p0 = self.current as int;
        let mut types: Vec<ast::TypeAnnotation> = Vec::new();
        assert(view_types(types) =~= Seq::empty());
        loop
            invariant
                old(self).steps_to(self),
                ts == self.tokens@,
                p0 <= self.current,
                bump(tuple_types_from(ts, self.current as int, view_types(types)), (self.current - p0) as nat)
                    == tuple_types_from(ts, p0, Seq::empty()),
            decreases rem(ts, self.current as int),
        {
            let ghost acc = view_types(types);
            let t = self.parse_type_annotation()?;
            types.push(t);
            assert(view_types(types) =~= acc.push(types@.last()@));
            if !self.match_one(TokenType::Comma) {
                assert(tuple_types_from(ts, p0, Seq::empty()) == ok(view_types(types), (self.current - p0) as nat));
                break;
            }
            if self.check(TokenType::RightParen) {
                assert(tuple_types_from(ts, p0, Seq::empty()) == ok(view_types(types), (self.current - p0) as nat));
                break;
            }
        }
        Ok(types)
    }

    /// The data of an enum variant, if any; its name has just been taken.
    #[verifier::spinoff_prover]
    fn variant_fields(&mut self) -> (r: Result<Option<ast::VariantFields>, ParseError>)
        requires
            old(self).wf(),
        ensures
            old(self).steps_to(final(self)),
            follows(
                outcome_by(
                    r,
                    |o: Option<ast::VariantFields>|
                        match o {
                            Some(f) => Some(view_variant_fields(f)),
                            None => None,
                        },
                ),
                *old(self),
                *final(self),
                variant_fields(old(self).tokens@, old(self).current as int),
            ),
        decreases rem(old(self).tokens@, old(self).current as int), 1nat,
    {
        proof {
            reveal(view_variant_fields);
            reveal(view_fields);
            reveal(view_types);
            reveal(variant_fields);
            reveal(fields_from);
        }
        if self.match_one(TokenType::LeftParen) {
            let left_paren_token = self.previous();
            let mut types: Vec<ast::TypeAnnotation> = Vec::new();
            if !self.check(TokenType::RightParen) {
                types = self.tuple_types()?;
            } else {
                assert(view_types(types) =~= Seq::empty());
            }
            let right_paren_token = self.consume(TokenType::RightParen, "Expect ')' after tuple variant types.")?;
            Ok(Some(ast::VariantFields::Tuple(left_paren_token, types, right_paren_token)))
        } else if self.match_one(TokenType::LeftBrace) {
            let left_brace_token = self.previous();
            let field_decls = self.field_declarations(
                "Expect field name in struct variant.",
                "Expect ',' or '}' after struct variant field.",
            )?;
            let right_brace_token = self.consume(TokenType::RightBrace, "Expect '}' after struct variant fields.")?;
            Ok(Some(ast::VariantFields::Struct(left_brace_token, field_decls, right_brace_token)))
        } else {
            Ok(None)
        }
    }

    /// Enum variants separated by commas, up to `}`.
    #[verifier::loop_isolation(false)]
    #[verifier::spinoff_prover]
    fn variant_list(&mut self) -> (r: Result<Vec<ast::VariantDecl>, ParseError>)
        requires
            old(self).wf(),
        ensures
            old(self).steps_to(final(self)),
            follows(
                outcome_by(r, |v: Vec<ast::VariantDecl>| view_variants(v)),
                *old(self),
                *final(self),
                variants_from(old(self).tokens@, old(self).current as int, Seq::empty()),
            ),
        decreases rem(old(self).tokens@, old(self).current as int), 16nat,
    {
        proof {
            reveal(view_variants);
            reveal(view_variant);
            reveal(view_annotations);
            reveal(view_variant_fields);
            reveal(variants_from);
            reveal(annotations_from);
            reveal(variant_fields);
        }
        let ghost ts = self.tokens@;
        let ghost p0 = self.current as int;
        let mut variants: Vec<ast::VariantDecl> = Vec::new();
        assert(view_variants(variants) =~= Seq::empty());
        while !self.check(TokenType::RightBrace) && !self.is_at_end()
            invariant
                old(self).steps_to(self),
                ts == self.tokens@,
                p0 <= self.current,
                bump(variants_from(ts, self.current as int, view_variants(variants)), (self.current - p0) as nat)
                    == variants_from(ts, p0, Seq::empty()),
            decreases rem(ts, self.current as int),
        {
            let ghost acc = view_variants(variants);
            let variant_annotations = self.parse_annotations_list()?;
            let variant_name = self.consume(TokenType::Identifier, "Expect variant name.")?;
            let variant_fields_opt = self.variant_fields()?;
            variants.push(ast::VariantDecl { annotations: variant_annotations, name: variant_name, fields: variant_fields_opt });
            assert(view_variants(variants) =~= acc.push(variants@.last()@));
            if !self.match_one(TokenType::Comma) {
                if !self.check(TokenType::RightBrace) {
                    return Err(self.error_here("Expect ',' or '}' after enum variant."));
                }
                assert(variants_from(ts, p0, Seq::empty()) == ok(view_variants(variants), (self.current - p0) as nat));
                break;
            }
            if self.check(TokenType::RightBrace) {
                assert(variants_from(ts, p0, Seq::empty()) == ok(view_variants(variants), (self.current - p0) as nat));
                break;
            }
        }
        Ok(variants)
    }

    /// Parses the rest of an enum declaration; its `enum` has just been taken.
    #[verifier::spinoff_prover]
    fn enum_declaration(&mut self, annotations: Vec<ast::AnnotationNode>) -> (r: Result<ast::Stmt, ParseError>)
        requires
            old(self).wf(),
            0 < old(self).current,
        ensures
            old(self).steps_to(final(self)),
            follows(
                outcome(r),
                *old(self),
                *final(self),
                enum_declaration(
                    old(self).tokens@,
                    old(self).current as int,
                    view_annotations(annotations),
                    old(self).tokens@[old(self).current - 1],
                ),
            ),
            r is Ok ==> old(self).current < final(self).current,
        decreases rem(old(self).tokens@, old(self).current as int), 1nat,
    {
        proof {
            reveal(view_stmt);
            reveal(view_annotations);
            reveal(view_else);
            reveal(view_else_ifs);
            reveal(view_expression);
            reveal(view_fields);
            reveal(view_opt_expression);
            reveal(view_opt_type);
            reveal(view_parameters);
            reveal(view_stmts);
            reveal(view_variants);
            reveal(enum_declaration);
            reveal(variants_from);
        }
        let enum_token = self.previous();
        let name = self.consume(TokenType::Identifier, "Expect enum name.")?;
        let left_brace = self.consume(TokenType::LeftBrace, "Expect '{' before enum variants.")?;
        let variants = self.variant_list()?;
        let right_brace = self.consume(TokenType::RightBrace, "Expect '}' after enum variants.")?;
        Ok(ast::Stmt::EnumDecl { annotations, enum_token, name, left_brace, variants, right_brace })
    }

    /// Parses the rest of a let declaration; its `let` has just been taken.
    #[verifier::spinoff_prover]
    fn let_declaration(&mut self, annotations: Vec<ast::AnnotationNode>) -> (r: Result<ast::Stmt, ParseError>)
        requires
            old(self).wf(),
            0 < old(self).current,
        ensures
            old(self).steps_to(final(self)),
            follows(
                outcome(r),
                *old(self),
                *final(self),
                let_declaration(
                    old(self).tokens@,
                    old(self).current as int,
                    view_annotations(annotations),
                    old(self).tokens@[old(self).current - 1],
                ),
            ),
            r is Ok ==> old(self).current < final(self).current,
        decreases rem(old(self).tokens@, old(self).current as int), 1nat,
    {
        proof {
            reveal(view_stmt);
            reveal(view_opt_type);
            reveal(view_opt_expression);
            reveal(view_annotations);
            reveal(view_else);
            reveal(view_else_ifs);
            reveal(view_expression);
            reveal(view_fields);
            reveal(view_parameters);
            reveal(view_stmts);
            reveal(view_variants);
            reveal(view_type);
            reveal(let_declaration);
            reveal(expression);
        }
        let let_token = self.previous();
        let name = self.consume(TokenType::Identifier, "Expect variable name.")?;
        let mut type_ann: Option<ast::TypeAnnotation> = None;
        if self.match_one(TokenType::Colon) {
            type_ann = Some(self.parse_type_annotation()?);
        }
        let mut initializer: Option<Box<ast::Expression>> = None;
        if self.match_one(TokenType::Equal) {
            initializer = Some(Box::new(self.expression(true)?));
        }
        self.consume(TokenType::Semicolon, "Expect ';' after variable declaration.")?;
        Ok(ast::Stmt::LetDecl { annotations, let_token, name, type_ann, initializer })
    }

    // --- Statements ---

    /// Parses a statement.
    #[verifier::spinoff_prover]
    fn statement(&mut self) -> (r: Result<ast::Stmt, ParseError>)
        requires
            old(self).wf(),
        ensures
            old(self).steps_to(final(self)),
            follows(outcome(r), *old(self), *final(self), statement(old(self).tokens@, old(self).current as int)),
            r is Ok ==> old(self).current < final(self).current,
        decreases rem(old(self).tokens@, old(self).current as int), 19nat,
    {
        proof {
            reveal(view_stmt);
            reveal(view_annotations);
            reveal(view_else);
            reveal(view_else_ifs);
            reveal(view_expression);
            reveal(view_fields);
            reveal(view_opt_expression);
            reveal(view_opt_type);
            reveal(view_parameters);
            reveal(view_stmts);
            reveal(view_variants);
            reveal(statement);
            reveal(block_from);
            reveal(expression_statement);
            reveal(for_statement);
            reveal(if_statement);
            reveal(return_statement);
            reveal(while_statement);
        }
        if self.check(TokenType::If) {
            self.if_statement()
        } else if self.match_one(TokenType::LeftBrace) {
            let left_brace = self.previous();
            let statements = self.block_statement_list()?;
            let right_brace = self.consume(TokenType::RightBrace, "Expect '}' after block.")?;
            Ok(ast::Stmt::Block { left_brace, statements, right_brace })
        } else if self.match_one(TokenType::Return) {
            self.return_statement()
        } else if self.check(TokenType::While) {
            self.while_statement()
        } else if self.check(TokenType::For) {
            self.for_statement()
        } else {
            self.expression_statement()
        }
    }

    /// Parses declarations up to `}` or the end.
    #[verifier::loop_isolation(false)]
    #[verifier::spinoff_prover]
    fn block_statement_list(&mut self) -> (r: Result<Vec<ast::Stmt>, ParseError>)
        requires
            old(self).wf(),
        ensures
            old(self).steps_to(final(self)),
            follows(
                outcome_by(r, |v: Vec<ast::Stmt>| view_stmts(v)),
                *old(self),
                *final(self),
                block_from(old(self).tokens@, old(self).current as int, Seq::empty()),
            ),
        decreases rem(old(self).tokens@, old(self).current as int), 21nat,
    {
        proof {
            reveal(view_stmts);
            reveal(view_stmt);
            reveal(block_from);
            reveal(declaration);
        }
        let ghost ts = self.tokens@;
        let ghost p0 = self.current as int;
        let mut statements: Vec<ast::Stmt> = Vec::new();
        assert(view_stmts(statements) =~= Seq::empty());
        while !self.check(TokenType::RightBrace) && !self.is_at_end()
            invariant
                old(self).steps_to(self),
                ts == self.tokens@,
                p0 <= self.current,
                bump(block_from(ts, self.current as int, view_stmts(statements)), (self.current - p0) as nat)
                    == block_from(ts, p0, Seq::empty()),
            decreases rem(ts, self.current as int),
        {
            let ghost acc = view_stmts(statements);
            let s = self.declaration()?;
            statements.push(s);
            assert(view_stmts(statements) =~= acc.push(statements@.last()@));
        }
        Ok(statements)
    }

    /// Parses an if statement with its `else if` and `else` branches.
    #[verifier::spinoff_prover]
    fn if_statement(&mut self) -> (r: Result<ast::Stmt, ParseError>)
        requires
            old(self).wf(),
        ensures
            old(self).steps_to(final(self)),
            follows(outcome(r), *old(self), *final(self), if_statement(old(self).tokens@, old(self).current as int)),
            r is Ok ==> old(self).current < final(self).current,
        decreases rem(old(self).tokens@, old(self).current as int), 18nat,
    {
        proof {
            reveal(view_stmt);
            reveal(view_else);
            reveal(view_annotations);
            reveal(view_else_ifs);
            reveal(view_expression);
            reveal(view_fields);
            reveal(view_opt_expression);
            reveal(view_opt_type);
            reveal(view_parameters);
            reveal(view_stmts);
            reveal(view_variants);
            reveal(if_statement);
            reveal(else_ifs_from);
            reveal(expression);
            reveal(statement);
        }
        let ghost ts = self.tokens@;
        let ghost p = self.current as int;
        let if_token = self.consume(TokenType::If, "Expect 'if'.")?;
        let condition = self.expression(false)?;
        let ghost a1 = self.current as int;
        let then_branch = Box::new(self.statement()?);
        let ghost a2 = self.current as int;
        let else_if_branches = self.else_if_list()?;
        let ghost a3 = self.current as int;
        proof {
            assert(expression(ts, p + 1, false) == ok(view_expression(condition), (a1 - (p + 1)) as nat));
            assert(statement(ts, a1) == ok(view_stmt(*then_branch), (a2 - a1) as nat));
            assert(else_ifs_from(ts, a2, Seq::empty()) == ok(view_else_ifs(else_if_branches), (a3 - a2) as nat));
        }
        if self.match_one(TokenType::Else) {
            let else_tok = self.previous();
            let branch = Box::new(self.statement()?);
            let r = ast::Stmt::IfStmt {
                if_token,
                condition: Box::new(condition),
                then_branch,
                else_if_branches,
                else_branch: Some(ast::ElseBranch { else_token: else_tok, branch }),
            };
            proof {
                assert(statement(ts, a3 + 1) == ok(view_stmt(*branch), (self.current - (a3 + 1)) as nat));
                assert(view_else(Some(ast::ElseBranch { else_token: else_tok, branch }))
                    == Some(SpecElseBranch { else_token: ts[a3], branch: Box::new(view_stmt(*branch)) }));
                assert(if_statement(ts, p) == ok(view_stmt(r), (self.current - p) as nat));
            }
            Ok(r)
        } else {
            let r = ast::Stmt::IfStmt {
                if_token,
                condition: Box::new(condition),
                then_branch,
                else_if_branches,
                else_branch: None,
            };
            proof {
                assert(view_else(None) == None::<SpecElseBranch>);
                assert(if_statement(ts, p) == ok(view_stmt(r), (self.current - p) as nat));
            }
            Ok(r)
        }
    }

    /// Parses the `else if` branches that follow.
    #[verifier::loop_isolation(false)]
    #[verifier::spinoff_prover]
    fn else_if_list(&mut self) -> (r: Result<Vec<ast::ElseIfBranch>, ParseError>)
        requires
            old(self).wf(),
        ensures
            old(self).steps_to(final(self)),
            follows(
                outcome_by(r, |v: Vec<ast::ElseIfBranch>| view_else_ifs(v)),
                *old(self),
                *final(self),
                else_ifs_from(old(self).tokens@, old(self).current as int, Seq::empty()),
            ),
        decreases rem(old(self).tokens@, old(self).current as int), 1nat,
    {
        proof {
            reveal(view_else_ifs);
            reveal(view_else_if);
            reveal(view_expression);
            reveal(view_stmt);
            reveal(else_ifs_from);
            reveal(expression);
            reveal(statement);
        }
        let ghost ts = self.tokens@;
        let ghost p0 = self.current as int;
        let mut else_if_branches: Vec<ast::ElseIfBranch> = Vec::new();
        assert(view_else_ifs(else_if_branches) =~= Seq::empty());
        while self.check(TokenType::Else) && self.check_next(TokenType::If)
            invariant
                old(self).steps_to(self),
                ts == self.tokens@,
                p0 <= self.current,
                bump(else_ifs_from(ts, self.current as int, view_else_ifs(else_if_branches)), (self.current - p0) as nat)
                    == else_ifs_from(ts, p0, Seq::empty()),
            decreases rem(ts, self.current as int),
        {
            let ghost acc = view_else_ifs(else_if_branches);
            let else_tok = self.consume(TokenType::Else, "Expect 'else'.")?;
            let if_tok = self.consume(TokenType::If, "Expect 'if' after 'else'.")?;
            let else_if_condition = self.expression(false)?;
            let else_if_then_branch = Box::new(self.statement()?);
            else_if_branches.push(
                ast::ElseIfBranch {
                    else_token: else_tok,
                    if_token: if_tok,
                    condition: Box::new(else_if_condition),
                    then_branch: else_if_then_branch,
                },
            );
            assert(view_else_ifs(else_if_branches) =~= acc.push(else_if_branches@.last()@));
        }
        Ok(else_if_branches)
    }

    /// Parses a while statement.
    #[verifier::spinoff_prover]
    fn while_statement(&mut self) -> (r: Result<ast::Stmt, ParseError>)
        requires
            old(self).wf(),
        ensures
            old(self).steps_to(final(self)),
            follows(outcome(r), *old(self), *final(self), while_statement(old(self).tokens@, old(self).current as int)),
            r is Ok ==> old(self).current < final(self).current,
        decreases rem(old(self).tokens@, old(self).current as int), 18nat,
    {
        proof {
            reveal(view_stmt);
            reveal(view_annotations);
            reveal(view_else);
            reveal(view_else_ifs);
            reveal(view_expression);
            reveal(view_fields);
            reveal(view_opt_expression);
            reveal(view_opt_type);
            reveal(view_parameters);
            reveal(view_stmts);
            reveal(view_variants);
            reveal(while_statement);
            reveal(expression);
            reveal(statement);
        }
        let while_token = self.consume(TokenType::While, "Expect 'while'.")?;
        let condition = self.expression(false)?;
        let body = Box::new(self.statement()?);
        Ok(ast::Stmt::WhileStmt { while_token, condition: Box::new(condition), body })
    }

    /// Parses a for statement.
    #[verifier::spinoff_prover]
    fn for_statement(&mut self) -> (r: Result<ast::Stmt, ParseError>)
        requires
            old(self).wf(),
        ensures
            old(self).steps_to(final(self)),
            follows(outcome(r), *old(self), *final(self), for_statement(old(self).tokens@, old(self).current as int)),
            r is Ok ==> old(self).current < final(self).current,
        decreases rem(old(self).tokens@, old(self).current as int), 18nat,
    {
        proof {
            reveal(view_stmt);
            reveal(view_annotations);
            reveal(view_else);
            reveal(view_else_ifs);
            reveal(view_expression);
            reveal(view_fields);
            reveal(view_opt_expression);
            reveal(view_opt_type);
            reveal(view_parameters);
            reveal(view_stmts);
            reveal(view_variants);
            reveal(for_statement);
            reveal(expression);
            reveal(statement);
        }
        let for_token = self.consume(TokenType::For, "Expect 'for'.")?;
        let variable = self.consume(TokenType::Identifier, "Expect variable name in for loop.")?;
        let in_token = self.consume(TokenType::In, "Expect 'in' keyword in for loop.")?;
        let iterable = self.expression(false)?;
        let body = Box::new(self.statement()?);
        Ok(ast::Stmt::ForStmt { for_token, variable, in_token, iterable: Box::new(iterable), body })
    }

    /// Parses the rest of a return statement; its `return` has just been taken.
    #[verifier::spinoff_prover]
    fn return_statement(&mut self) -> (r: Result<ast::Stmt, ParseError>)
        requires
            old(self).wf(),
            0 < old(self).current,
        ensures
            old(self).steps_to(final(self)),
            follows(
                outcome(r),
                *old(self),
                *final(self),
                return_statement(old(self).tokens@, old(self).current as int, old(self).tokens@[old(self).current - 1]),
            ),
        decreases rem(old(self).tokens@, old(self).current as int), 18nat,
    {
        proof {
            reveal(view_stmt);
            reveal(view_opt_expression);
            reveal(view_annotations);
            reveal(view_else);
            reveal(view_else_ifs);
            reveal(view_expression);
            reveal(view_fields);
            reveal(view_opt_type);
            reveal(view_parameters);
            reveal(view_stmts);
            reveal(view_variants);
            reveal(return_statement);
            reveal(expression);
        }
        let return_token = self.previous();
        let mut value: Option<Box<ast::Expression>> = None;
        if !self.check(TokenType::Semicolon) {
            value = Some(Box::new(self.expression(true)?));
        }
        self.consume(TokenType::Semicolon, "Expect ';' after return value.")?;
        Ok(ast::Stmt::ReturnStmt { return_token, value })
    }

    /// Parses an expression followed by `;`.
    #[verifier::spinoff_prover]
    fn expression_statement(&mut self) -> (r: Result<ast::Stmt, ParseError>)
        requires
            old(self).wf(),
        ensures
            old(self).steps_to(final(self)),
            follows(outcome(r), *old(self), *final(self), expression_statement(old(self).tokens@, old(self).current as int)),
            r is Ok ==> old(self).current < final(self).current,
        decreases rem(old(self).tokens@, old(self).current as int), 18nat,
    {
        proof {
            reveal(view_stmt);
            reveal(view_annotations);
            reveal(view_else);
            reveal(view_else_ifs);
            reveal(view_expression);
            reveal(view_fields);
            reveal(view_opt_expression);
            reveal(view_opt_type);
            reveal(view_parameters);
            reveal(view_stmts);
            reveal(view_variants);
            reveal(expression_statement);
            reveal(expression);
        }
        let expr = self.expression(true)?;
        self.consume(TokenType::Semicolon, "Expect ';' after expression.")?;
        Ok(ast::Stmt::ExpressionStmt(Box::new(expr)))
    }

    // --- Expressions ---

    /// Parses an expression; where `structs` is false (conditions, `for`
    /// iterables, `match` operands), a lone identifier before `{` is not read
    /// as a struct literal.
    #[verifier::spinoff_prover]
    fn expression(&mut self, structs: bool) -> (r: Result<ast::Expression, ParseError>)
        requires
            old(self).wf(),
        ensures
            old(self).steps_to(final(self)),
            follows(outcome(r), *old(self), *final(self), expression(old(self).tokens@, old(self).current as int, structs)),
            r is Ok ==> old(self).current < final(self).current,
        decreases rem(old(self).tokens@, old(self).current as int), 14nat,
    {
        proof {
            reveal(expression);
            reveal(assignment);
        }
        self.assignment(structs)
    }

    /// Parses an assignment `target = value` (right-associative) or a logical-or
    /// expression; the target must be a plain postfix expression.
    #[verifier::spinoff_prover]
    fn assignment(&mut self, structs: bool) -> (r: Result<ast::Expression, ParseError>)
        requires
            old(self).wf(),
        ensures
            old(self).steps_to(final(self)),
            follows(outcome(r), *old(self), *final(self), assignment(old(self).tokens@, old(self).current as int, structs)),
            r is Ok ==> old(self).current < final(self).current,
        decreases rem(old(self).tokens@, old(self).current as int), 13nat,
    {
        proof {
            reveal(view_expression);
            reveal(view_postfix);
            reveal(assignment);
            reveal(logical_or_entry);
        }
        let expr = self.logical_or_entry(structs)?;
        if self.match_one(TokenType::Equal) {
            let equals_token = self.previous();
            let value = self.assignment(structs)?;
            match assign_target_of(expr) {
                Some(target) => Ok(ast::Expression::Assign { target, equals_token, value: Box::new(value) }),
                None => Err(
                    ParseError::new(
                        Some(&equals_token),
                        "Invalid assignment target. Expected an identifier or property access.",
                        equals_token.line,
                    ),
                ),
            }
        } else {
            Ok(expr)
        }
    }

    /// Parses a logical-or expression and wraps it as an expression.
    #[verifier::spinoff_prover]
    fn logical_or_entry(&mut self, structs: bool) -> (r: Result<ast::Expression, ParseError>)
        requires
            old(self).wf(),
        ensures
            old(self).steps_to(final(self)),
            follows(outcome(r), *old(self), *final(self), logical_or_entry(old(self).tokens@, old(self).current as int, structs)),
            r is Ok ==> old(self).current < final(self).current,
        decreases rem(old(self).tokens@, old(self).current as int), 12nat,
    {
        proof {
            reveal(view_expression);
            reveal(view_or);
            reveal(view_postfix);
            reveal(logical_or_entry);
            reveal(logical_or);
        }
        let node = self.logical_or_node(structs)?;
        Ok(ast::Expression::LogicalOr(Box::new(node)))
    }

    /// Parses `a or b` or a single operand.
    #[verifier::spinoff_prover]
    fn logical_or_node(&mut self, structs: bool) -> (r: Result<ast::LogicalOr, ParseError>)
        requires
            old(self).wf(),
        ensures
            old(self).steps_to(final(self)),
            follows(outcome(r), *old(self), *final(self), logical_or(old(self).tokens@, old(self).current as int, structs)),
            r is Ok ==> old(self).current < final(self).current,
        decreases rem(old(self).tokens@, old(self).current as int), 11nat,
    {
        proof {
            reveal(view_or);
            reveal(view_and);
            reveal(logical_or);
            reveal(logical_and);
        }
        let left = self.logical_and_node(structs)?;
        if self.match_one(TokenType::Or) {
            let operator = self.previous();
            let right = self.logical_and_node(structs)?;
            Ok(ast::LogicalOr::Binary { left: Box::new(left), operator, right: Box::new(right) })
        } else {
            Ok(ast::LogicalOr::Next(Box::new(left)))
        }
    }

    /// Parses `a and b` or a single operand.
    #[verifier::spinoff_prover]
    fn logical_and_node(&mut self, structs: bool) -> (r: Result<ast::LogicalAnd, ParseError>)
        requires
            old(self).wf(),
        ensures
            old(self).steps_to(final(self)),
            follows(outcome(r), *old(self), *final(self), logical_and(old(self).tokens@, old(self).current as int, structs)),
            r is Ok ==> old(self).current < final(self).current,
        decreases rem(old(self).tokens@, old(self).current as int), 10nat,
    {
        proof {
            reveal(view_and);
            reveal(view_equality);
            reveal(logical_and);
            reveal(equality);
        }
        let left = self.equality_node(structs)?;
        if self.match_one(TokenType::And) {
            let operator = self.previous();
            let right = self.equality_node(structs)?;
            Ok(ast::LogicalAnd::Binary { left: Box::new(left), operator, right: Box::new(right) })
        } else {
            Ok(ast::LogicalAnd::Next(Box::new(left)))
        }
    }

    /// Parses `a == b`, `a != b` or a single operand.
    #[verifier::spinoff_prover]
    fn equality_node(&mut self, structs: bool) -> (r: Result<ast::Equality, ParseError>)
        requires
            old(self).wf(),
        ensures
            old(self).steps_to(final(self)),
            follows(outcome(r), *old(self), *final(self), equality(old(self).tokens@, old(self).current as int, structs)),
            r is Ok ==> old(self).current < final(self).current,
        decreases rem(old(self).tokens@, old(self).current as int), 9nat,
    {
        proof {
            reveal(view_equality);
            reveal(view_comparison);
            reveal(equality);
            reveal(comparison);
        }
        let left = self.comparison_node(structs)?;
        let operators = [TokenType::BangEqual, TokenType::EqualEqual];
        assert(operators@ =~= equality_operators());
        if self.match_token(&operators) {
            let operator = self.previous();
            let right = self.comparison_node(structs)?;
            Ok(ast::Equality::Binary { left: Box::new(left), operator, right: Box::new(right) })
        } else {
            Ok(ast::Equality::Next(Box::new(left)))
        }
    }

    /// Parses a comparison `<`, `<=`, `>`, `>=` or a single operand.
    #[verifier::spinoff_prover]
    fn comparison_node(&mut self, structs: bool) -> (r: Result<ast::Comparison, ParseError>)
        requires
            old(self).wf(),
        ensures
            old(self).steps_to(final(self)),
            follows(outcome(r), *old(self), *final(self), comparison(old(self).tokens@, old(self).current as int, structs)),
            r is Ok ==> old(self).current < final(self).current,
        decreases rem(old(self).tokens@, old(self).current as int), 8nat,
    {
        proof {
            reveal(view_comparison);
            reveal(view_term);
            reveal(comparison);
            reveal(term);
        }
        let left = self.term_node(structs)?;
        let operators = [TokenType::Greater, TokenType::GreaterEqual, TokenType::Less, TokenType::LessEqual];
        assert(operators@ =~= comparison_operators());
        if self.match_token(&operators) {
            let operator = self.previous();
            let right = self.term_node(structs)?;
            Ok(ast::Comparison::Binary { left: Box::new(left), operator, right: Box::new(right) })
        } else {
            Ok(ast::Comparison::Next(Box::new(left)))
        }
    }

    /// Parses `a + b`, `a - b` or a single operand.
    #[verifier::spinoff_prover]
    fn term_node(&mut self, structs: bool) -> (r: Result<ast::Term, ParseError>)
        requires
            old(self).wf(),
        ensures
            old(self).steps_to(final(self)),
            follows(outcome(r), *old(self), *final(self), term(old(self).tokens@, old(self).current as int, structs)),
            r is Ok ==> old(self).current < final(self).current,
        decreases rem(old(self).tokens@, old(self).current as int), 7nat,
    {
        proof {
            reveal(view_term);
            reveal(view_factor);
            reveal(term);
            reveal(factor);
        }
        let left = self.factor_node(structs)?;
        let operators = [TokenType::Minus, TokenType::Plus];
        assert(operators@ =~= term_operators());
        if self.match_token(&operators) {
            let operator = self.previous();
            let right = self.factor_node(structs)?;
            Ok(ast::Term::Binary { left: Box::new(left), operator, right: Box::new(right) })
        } else {
            Ok(ast::Term::Next(Box::new(left)))
        }
    }

    /// Parses `a * b`, `a / b` or a single operand.
    #[verifier::spinoff_prover]
    fn factor_node(&mut self, structs: bool) -> (r: Result<ast::Factor, ParseError>)
        requires
            old(self).wf(),
        ensures
            old(self).steps_to(final(self)),
            follows(outcome(r), *old(self), *final(self), factor(old(self).tokens@, old(self).current as int, structs)),
            r is Ok ==> old(self).current < final(self).current,
        decreases rem(old(self).tokens@, old(self).current as int), 6nat,
    {
        proof {
            reveal(view_factor);
            reveal(view_unary);
            reveal(factor);
            reveal(unary);
        }
        let left = self.unary(structs)?;
        let operators = [TokenType::Slash, TokenType::Star];
        assert(operators@ =~= factor_operators());
        if self.match_token(&operators) {
            let operator = self.previous();
            let right = self.unary(structs)?;
            Ok(ast::Factor::Binary { left: Box::new(left), operator, right: Box::new(right) })
        } else {
            Ok(ast::Factor::Next(Box::new(left)))
        }
    }

    /// Parses `!a`, `-a` (nested as deep as written) or a postfix expression.
    #[verifier::spinoff_prover]
    fn unary(&mut self, structs: bool) -> (r: Result<ast::Unary, ParseError>)
        requires
            old(self).wf(),
        ensures
            old(self).steps_to(final(self)),
            follows(outcome(r), *old(self), *final(self), unary(old(self).tokens@, old(self).current as int, structs)),
            r is Ok ==> old(self).current < final(self).current,
        decreases rem(old(self).tokens@, old(self).current as int), 5nat,
    {
        proof {
            reveal(view_unary);
            reveal(view_postfix);
            reveal(unary);
            reveal(postfix);
        }
        let operators = [TokenType::Bang, TokenType::Minus];
        assert(operators@ =~= unary_operators());
        if self.match_token(&operators) {
            let operator = self.previous();
            let operand = self.unary(structs)?;
            Ok(ast::Unary::Prefixed { operator, operand: Box::new(operand) })
        } else {
            let postfix_expr = self.postfix(structs)?;
            Ok(ast::Unary::Next(Box::new(postfix_expr)))
        }
    }

    /// Parses a primary expression followed by calls and property accesses.
    #[verifier::loop_isolation(false)]
    #[verifier::spinoff_prover]
    fn postfix(&mut self, structs: bool) -> (r: Result<ast::Postfix, ParseError>)
        requires
            old(self).wf(),
        ensures
            old(self).steps_to(final(self)),
            follows(outcome(r), *old(self), *final(self), postfix(old(self).tokens@, old(self).current as int, structs)),
            r is Ok ==> old(self).current < final(self).current,
        decreases rem(old(self).tokens@, old(self).current as int), 4nat,
    {
        proof {
            reveal(view_postfix);
            reveal(view_expressions);
            reveal(view_primary);
            reveal(postfix);
            reveal(postfix_from);
            reveal(primary);
            reveal(arguments);
        }
        let ghost ts = self.tokens@;
        let ghost p0 = self.current as int;
        let mut expr = ast::Postfix::Item(Box::new(self.primary(structs)?));
        let ghost s0 = self.current as int;
        let ghost start = view_postfix(expr);
        loop
            invariant
                old(self).steps_to(self),
                ts == self.tokens@,
                p0 < s0 <= self.current,
                bump(postfix_from(ts, self.current as int, view_postfix(expr)), (self.current - s0) as nat)
                    == postfix_from(ts, s0, start),
            decreases rem(ts, self.current as int),
        {
            if self.match_one(TokenType::LeftParen) {
                let left_paren = self.previous();
                let arguments = self.arguments()?;
                let right_paren = self.consume(TokenType::RightParen, "Expect ')' after arguments.")?;
                expr = ast::Postfix::FunctionCall { callee: Box::new(expr), left_paren, arguments, right_paren };
            } else if self.match_one(TokenType::Dot) {
                let dot_token = self.previous();
                let optional_chain_token: Option<Token> = None;
                let name = self.consume(TokenType::Identifier, "Expect property name after '.'")?;
                expr = ast::Postfix::PropertyGet { object: Box::new(expr), dot_token, optional_chain_token, name };
            } else {
                break;
            }
        }
        Ok(expr)
    }

    /// Parses the arguments of a call, up to its `)`.
    #[verifier::loop_isolation(false)]
    #[verifier::spinoff_prover]
    fn arguments(&mut self) -> (r: Result<Vec<ast::Expression>, ParseError>)
        requires
            old(self).wf(),
        ensures
            old(self).steps_to(final(self)),
            follows(
                outcome_by(r, |v: Vec<ast::Expression>| view_expressions(v)),
                *old(self),
                *final(self),
                arguments(old(self).tokens@, old(self).current as int),
            ),
        decreases rem(old(self).tokens@, old(self).current as int), 16nat,
    {
        proof {
            reveal(view_expressions);
            reveal(view_expression);
            reveal(arguments);
            reveal(arguments_from);
            reveal(expression);
        }
        let ghost ts = self.tokens@;
        let ghost p0 = self.current as int;
        let mut args: Vec<ast::Expression> = Vec::new();
        assert(view_expressions(args) =~= Seq::empty());
        if !self.check(TokenType::RightParen) {
            loop
                invariant
                    old(self).steps_to(self),
                    ts == self.tokens@,
                    p0 <= self.current,
                    !check(ts, p0, TokenType::RightParen),
                    bump(arguments_from(ts, self.current as int, view_expressions(args)), (self.current - p0) as nat)
                        == arguments_from(ts, p0, Seq::empty()),
                decreases rem(ts, self.current as int),
            {
                let ghost acc = view_expressions(args);
                let e = self.expression(true)?;
                args.push(e);
                assert(view_expressions(args) =~= acc.push(view_expression(args@.last())));
                if !self.match_one(TokenType::Comma) {
                    assert(arguments_from(ts, p0, Seq::empty()) == ok(view_expressions(args), (self.current - p0) as nat));
                    break;
                }
                if self.check(TokenType::RightParen) {
                    assert(arguments_from(ts, p0, Seq::empty()) == ok(view_expressions(args), (self.current - p0) as nat));
                    break;
                }
            }
        }
        Ok(args)
    }

    /// Parses a primary expression; a struct literal only where `structs` allows one.
    #[verifier::spinoff_prover]
    fn primary(&mut self, structs: bool) -> (r: Result<ast::Primary, ParseError>)
        requires
            old(self).wf(),
        ensures
            old(self).steps_to(final(self)),
            follows(outcome(r), *old(self), *final(self), primary(old(self).tokens@, old(self).current as int, structs)),
            r is Ok ==> old(self).current < final(self).current,
        decreases rem(old(self).tokens@, old(self).current as int), 3nat,
    {
        proof {
            reveal(view_primary);
            reveal(view_arms);
            reveal(view_expression);
            reveal(view_literal_fields);
            reveal(view_opt_type);
            reveal(view_parameters);
            reveal(view_path);
            reveal(primary);
            reveal(expression);
            reveal(match_expression);
            reveal(struct_literal);
        }
        let current_token_for_error = self.peek().clone();
        if self.match_one(TokenType::False) {
            return Ok(ast::Primary::Literal(LiteralValue::Boolean(false)));
        }
        if self.match_one(TokenType::True) {
            return Ok(ast::Primary::Literal(LiteralValue::Boolean(true)));
        }
        if self.match_one(TokenType::Null) {
            return Ok(ast::Primary::Literal(LiteralValue::Null));
        }
        if self.check(TokenType::Number) || self.check(TokenType::String) {
            let token_with_literal = self.take();
            match token_with_literal.literal {
                Some(lv) => return Ok(ast::Primary::Literal(lv)),
                None => {
                    return Err(
                        ParseError::new(
                            Some(&token_with_literal),
                            "Expected literal value not found in token.",
                            token_with_literal.line,
                        ),
                    )
                },
            }
        }
        if self.check(TokenType::Identifier) {
            let path_expr = self.parse_path_expression()?;
            if structs && self.check(TokenType::LeftBrace) && path_expr.segments.len() == 1 {
                let mut segments = path_expr.segments;
                let first = segments.remove(0);
                return self.struct_literal(first);
            } else if path_expr.segments.len() == 1 && !self.is_path_like_context_after_identifier() {
                let mut segments = path_expr.segments;
                let first = segments.remove(0);
                return Ok(ast::Primary::Identifier(first));
            } else {
                return Ok(ast::Primary::EnumPath(path_expr));
            }
        }
        if self.match_one(TokenType::LeftParen) {
            let left_paren = self.previous();
            let expr = self.expression(true)?;
            let right_paren = self.consume(TokenType::RightParen, "Expect ')' after expression.")?;
            return Ok(ast::Primary::Grouping { left_paren, expression: Box::new(expr), right_paren });
        }
        if self.check(TokenType::Match) {
            return self.match_expression();
        }
        Err(ParseError::new(Some(&current_token_for_error), "Expect expression.", current_token_for_error.line))
    }

    /// Whether the next token is `::`, as after the first segment of a path.
    #[verifier::spinoff_prover]
    fn is_path_like_context_after_identifier(&self) -> (r: bool)
        requires
            self.wf(),
        ensures
            r == check(self.tokens@, self.current as int, TokenType::DoubleColon),
    {
        self.check(TokenType::DoubleColon)
    }

    /// Parses the body of a struct literal `{ field: value, ... }` after its name.
    #[verifier::loop_isolation(false)]
    #[verifier::spinoff_prover]
    fn struct_literal(&mut self, name: Token) -> (r: Result<ast::Primary, ParseError>)
        requires
            old(self).wf(),
        ensures
            old(self).steps_to(final(self)),
            follows(outcome(r), *old(self), *final(self), struct_literal(old(self).tokens@, old(self).current as int, name)),
            r is Ok ==> old(self).current < final(self).current,
        decreases rem(old(self).tokens@, old(self).current as int), 2nat,
    {
        proof {
            reveal(view_primary);
            reveal(view_literal_fields);
            reveal(view_arms);
            reveal(view_expression);
            reveal(view_opt_type);
            reveal(view_parameters);
            reveal(view_path);
            reveal(struct_literal);
            reveal(literal_fields_from);
            reveal(expression);
        }
        let ghost ts = self.tokens@;
        let ghost p0 = self.current as int;
        let left_brace = self.consume(TokenType::LeftBrace, "Expect '{' for struct literal.")?;
        let mut fields: Vec<ast::StructLiteralField> = Vec::new();
        let ghost q1 = p0 + 1;
        assert(view_literal_fields(fields) =~= Seq::empty());
        if !self.check(TokenType::RightBrace) {
            loop
                invariant
                    old(self).steps_to(self),
                    ts == self.tokens@,
                    p0 < q1 <= self.current,
                    bump(literal_fields_from(ts, self.current as int, view_literal_fields(fields)), (self.current - q1) as nat)
                        == literal_fields_from(ts, q1, Seq::empty()),
                decreases rem(ts, self.current as int),
            {
                let ghost acc = view_literal_fields(fields);
                let field_name = self.consume(TokenType::Identifier, "Expect field name in struct literal.")?;
                let colon_token = self.consume(TokenType::Colon, "Expect ':' after field name in struct literal.")?;
                let value = self.expression(true)?;
                fields.push(ast::StructLiteralField { name: field_name, colon_token, value: Box::new(value) });
                assert(view_literal_fields(fields) =~= acc.push(
                    crate::abstract_syntax_tree::model::SpecStructLiteralField {
                        name: fields@.last().name,
                        colon_token: fields@.last().colon_token,
                        value: Box::new(view_expression(*fields@.last().value)),
                    },
                ));
                if !self.match_one(TokenType::Comma) {
                    assert(literal_fields_from(ts, q1, Seq::empty()) == ok(view_literal_fields(fields), (self.current - q1) as nat));
                    break;
                }
                if self.check(TokenType::RightBrace) {
                    assert(literal_fields_from(ts, q1, Seq::empty()) == ok(view_literal_fields(fields), (self.current - q1) as nat));
                    break;
                }
            }
        }
        let right_brace = self.consume(TokenType::RightBrace, "Expect '}' after struct literal fields.")?;
        Ok(ast::Primary::StructLiteral { name, left_brace, fields, right_brace })
    }

    /// Parses a match expression `match value { pattern => body, ... }`.
    #[verifier::loop_isolation(false)]
    #[verifier::spinoff_prover]
    fn match_expression(&mut self) -> (r: Result<ast::Primary, ParseError>)
        requires
            old(self).wf(),
        ensures
            old(self).steps_to(final(self)),
            follows(outcome(r), *old(self), *final(self), match_expression(old(self).tokens@, old(self).current as int)),
            r is Ok ==> old(self).current < final(self).current,
        decreases rem(old(self).tokens@, old(self).current as int), 2nat,
    {
        proof {
            reveal(view_primary);
            reveal(view_arms);
            reveal(view_expression);
            reveal(match_expression);
            reveal(arms_from);
            reveal(expression);
        }
        let ghost ts = self.tokens@;
        let ghost p0 = self.current as int;
        let match_token = self.consume(TokenType::Match, "Expect 'match' keyword.")?;
        let scrutinee = self.expression(false)?;
        let ghost a1 = self.current as int;
        let left_brace = self.consume(TokenType::LeftBrace, "Expect '{' after match expression.")?;
        let arms = self.match_arms()?;
        let ghost a2 = self.current as int;
        let right_brace = self.consume(TokenType::RightBrace, "Expect '}' after match arms.")?;
        let r = ast::Primary::MatchExpr { match_token, expression: Box::new(scrutinee), left_brace, arms, right_brace };
        proof {
            assert(expression(ts, p0 + 1, false) == ok(view_expression(scrutinee), (a1 - (p0 + 1)) as nat));
            assert(arms_from(ts, a1 + 1, Seq::empty()) == ok(view_arms(arms), (a2 - (a1 + 1)) as nat));
            assert(match_expression(ts, p0) == ok(view_primary(r), (self.current - p0) as nat));
        }
        Ok(r)
    }

    /// Parses match arms up to `}` or the end: each is `pattern => expression`,
    /// and each but the last is followed by a comma.
    #[verifier::loop_isolation(false)]
    #[verifier::spinoff_prover]
    fn match_arms(&mut self) -> (r: Result<Vec<ast::MatchArm>, ParseError>)
        requires
            old(self).wf(),
        ensures
            old(self).steps_to(final(self)),
            follows(
                outcome_by(r, |v: Vec<ast::MatchArm>| view_arms(v)),
                *old(self),
                *final(self),
                arms_from(old(self).tokens@, old(self).current as int, Seq::empty()),
            ),
        decreases rem(old(self).tokens@, old(self).current as int), 1nat,
    {
        proof {
            reveal(view_arms);
            reveal(view_arm);
            reveal(arms_from);
            reveal(expression);
        }
        let ghost ts = self.tokens@;
        let ghost q1 = self.current as int;
        let mut arms: Vec<ast::MatchArm> = Vec::new();
        assert(view_arms(arms) =~= Seq::empty());
        while !self.check(TokenType::RightBrace) && !self.is_at_end()
            invariant
                old(self).steps_to(self),
                ts == self.tokens@,
                q1 <= self.current,
                bump(arms_from(ts, self.current as int, view_arms(arms)), (self.current - q1) as nat)
                    == arms_from(ts, q1, Seq::empty()),
            decreases rem(ts, self.current as int),
        {
            let ghost acc = view_arms(arms);
            let pattern = self.parse_match_pattern()?;
            let arrow_token = self.consume(TokenType::FatArrow, "Expect '=>' after match pattern.")?;
            let body = self.expression(true)?;
            let mut comma_token_for_ast: Option<Token> = None;
            let mut consumed_comma_this_iteration = false;
            if self.match_one(TokenType::Comma) {
                comma_token_for_ast = Some(self.previous());
                consumed_comma_this_iteration = true;
            }
            arms.push(ast::MatchArm { pattern, arrow_token, body: Box::new(body), comma_token: comma_token_for_ast });
            assert(view_arms(arms) =~= acc.push(arms@.last()@));
            if self.check(TokenType::RightBrace) {
                assert(arms_from(ts, q1, Seq::empty()) == ok(view_arms(arms), (self.current - q1) as nat));
                break;
            }
            if !consumed_comma_this_iteration {
                let t = self.peek();
                return Err(ParseError::new(Some(t), "Expect ',' or '}' after match arm.", t.line));
            }
        }
        Ok(arms)
    }
}

} // verus!

//! What the parser computes, stated as a grammar over the token sequence.
//!
//! Each nonterminal is a function from a token sequence and a position to a
//! [`Parsed`] outcome: the tree it builds or the error it stops with, and the
//! number of tokens it takes either way. The parser stops at the first error
//! inside a declaration; [`program`] then skips ahead to a likely statement
//! boundary and goes on, collecting every error.

use vstd::prelude::*;
use crate::abstract_syntax_tree::model::{
    SpecAnnotationNode, SpecComparison, SpecElseBranch, SpecElseIfBranch, SpecEnumVariantPatternFields,
    SpecEquality, SpecExpression, SpecFactor, SpecFieldDecl, SpecLogicalAnd, SpecLogicalOr,
    SpecMatchArm, SpecMatchPattern, SpecParameter, SpecPathExpression, SpecPostfix, SpecPrimary,
    SpecStmt, SpecStructLiteralField, SpecStructPatternField, SpecTerm, SpecTypeAnnotation,
    SpecUnary, SpecVariantDecl, SpecVariantFields,
};
use crate::lexical::token::Token;
use crate::lexical::token_type::{LiteralValue, TokenType};

verus! {

/// The mathematical content of a parse error.
pub struct SpecParseError {
    pub token: Option<Token>,
    pub message: Seq<char>,
    pub line: usize,
}

/// The outcome of parsing a nonterminal: what it built (or the error it
/// stopped with) and how many tokens it took.
pub struct Parsed<T> {
    pub result: Result<T, SpecParseError>,
    pub used: nat,
}

pub open spec fn ok<T>(value: T, used: nat) -> Parsed<T> {
    Parsed { result: Ok(value), used }
}

pub open spec fn fail<T>(error: SpecParseError, used: nat) -> Parsed<T> {
    Parsed { result: Err(error), used }
}

/// The same outcome, counting `k` more tokens taken before it.
pub open spec fn bump<T>(r: Parsed<T>, k: nat) -> Parsed<T> {
    Parsed { result: r.result, used: r.used + k }
}

/// How many tokens are left from `p` (a measure for recursion).
pub open spec fn rem(ts: Seq<Token>, p: int) -> nat {
    if p < ts.len() {
        (ts.len() - p) as nat
    } else {
        0
    }
}

/// Whether the token at `p` is the end-of-file marker (or `p` is outside the tokens).
pub open spec fn at_end(ts: Seq<Token>, p: int) -> bool {
    !(0 <= p < ts.len()) || ts[p].token_type == TokenType::EndOfFile
}

/// Whether the token at `p` has kind `t` (never at the end).
pub open spec fn check(ts: Seq<Token>, p: int, t: TokenType) -> bool {
    !at_end(ts, p) && ts[p].token_type == t
}

/// Whether the token after the one at `p` has kind `t` (never at the end).
pub open spec fn check_next(ts: Seq<Token>, p: int, t: TokenType) -> bool {
    !at_end(ts, p) && p + 1 < ts.len() && ts[p + 1].token_type == t
}

/// Whether the token at `p` has one of the kinds `types` (never at the end).
pub open spec fn check_any(ts: Seq<Token>, p: int, types: Seq<TokenType>) -> bool {
    !at_end(ts, p) && types.contains(ts[p].token_type)
}

/// An error reported at the token `t`.
pub open spec fn error_on(t: Token, message: Seq<char>) -> SpecParseError {
    SpecParseError { token: Some(t), message, line: t.line }
}

/// An error reported at the token at `p`.
pub open spec fn error_at(ts: Seq<Token>, p: int, message: Seq<char>) -> SpecParseError {
    error_on(ts[p], message)
}

/// Takes the token at `p` if it has kind `t`, else fails with `message` without taking it.
pub open spec fn consume(ts: Seq<Token>, p: int, t: TokenType, message: Seq<char>) -> Parsed<Token> {
    if check(ts, p, t) {
        ok(ts[p], 1)
    } else {
        fail(error_at(ts, p, message), 0)
    }
}

// ---------------------------------------------------------------------------
// Paths and types

/// The rest of a path after its first segment: `(:: | .) IDENTIFIER` repeated.
pub open spec fn path_rest(ts: Seq<Token>, p: int, segments: Seq<Token>) -> Parsed<Seq<Token>>
    decreases rem(ts, p),
{
    if check(ts, p, TokenType::DoubleColon) || check(ts, p, TokenType::Dot) {
        if check(ts, p + 1, TokenType::Identifier) {
            bump(path_rest(ts, p + 2, segments.push(ts[p + 1])), 2)
        } else {
            fail(error_at(ts, p + 1, "Expect identifier after '::' or '.'."@), 1)
        }
    } else {
        ok(segments, 0)
    }
}

/// `IDENTIFIER ((:: | .) IDENTIFIER)*`
pub open spec fn path(ts: Seq<Token>, p: int) -> Parsed<SpecPathExpression> {
    if check(ts, p, TokenType::Identifier) {
        let r = path_rest(ts, p + 1, seq![ts[p]]);
        match r.result {
            Ok(segments) => ok(SpecPathExpression { segments }, r.used + 1),
            Err(e) => fail(e, r.used + 1),
        }
    } else {
        fail(error_at(ts, p, "Expect identifier for path segment."@), 0)
    }
}

/// `PATH ?`
pub open spec fn type_annotation(ts: Seq<Token>, p: int) -> Parsed<SpecTypeAnnotation> {
    let r = path(ts, p);
    match r.result {
        Err(e) => fail(e, r.used),
        Ok(name) => {
            let q = p + r.used;
            if check(ts, q, TokenType::Question) {
                ok(SpecTypeAnnotation { name, is_optional: true }, r.used + 1)
            } else {
                ok(SpecTypeAnnotation { name, is_optional: false }, r.used)
            }
        },
    }
}

/// The type list of a tuple-like enum variant after its first element:
/// `TYPE (, TYPE)*`, a trailing comma allowed before `)`.
pub open spec fn tuple_types_from(ts: Seq<Token>, p: int, acc: Seq<SpecTypeAnnotation>) -> Parsed<Seq<SpecTypeAnnotation>>
    decreases rem(ts, p),
{
    let t = type_annotation(ts, p);
    match t.result {
        Err(e) => fail(e, t.used),
        Ok(ty) => {
            let q = p + t.used;
            let acc = acc.push(ty);
            if check(ts, q, TokenType::Comma) {
                if check(ts, q + 1, TokenType::RightParen) {
                    ok(acc, t.used + 1)
                } else {
                    bump(tuple_types_from(ts, q + 1, acc), t.used + 1)
                }
            } else {
                ok(acc, t.used)
            }
        },
    }
}

// ---------------------------------------------------------------------------
// Match patterns

/// A match pattern: a literal, a binding, a struct pattern `Path { f, g: pat }`,
/// or an enum variant pattern `Path(pat, ...)` or `Path::Variant`.
pub open spec fn pattern(ts: Seq<Token>, p: int) -> Parsed<SpecMatchPattern>
    decreases rem(ts, p), 1nat,
{
    if check(ts, p, TokenType::False) {
        ok(SpecMatchPattern::Literal(LiteralValue::Boolean(false)), 1)
    } else if check(ts, p, TokenType::True) {
        ok(SpecMatchPattern::Literal(LiteralValue::Boolean(true)), 1)
    } else if check(ts, p, TokenType::Null) {
        ok(SpecMatchPattern::Literal(LiteralValue::Null), 1)
    } else if check(ts, p, TokenType::Number) || check(ts, p, TokenType::String) {
        match ts[p].literal {
            Some(lv) => ok(SpecMatchPattern::Literal(lv), 1),
            None => fail(error_on(ts[p], "Expected literal value for pattern."@), 1),
        }
    } else if check(ts, p, TokenType::Identifier) {
        let r = path(ts, p);
        match r.result {
            Err(e) => fail(e, r.used),
            Ok(name) => {
                let q = p + r.used;
                if check(ts, q, TokenType::LeftBrace) {
                    let fields = if !check(ts, q + 1, TokenType::RightBrace) {
                        pattern_fields_from(ts, q + 1, Seq::empty())
                    } else {
                        ok(Seq::empty(), 0)
                    };
                    match fields.result {
                        Err(e) => fail(e, r.used + 1 + fields.used),
                        Ok(fs) => {
                            let q2 = q + 1 + fields.used;
                            if check(ts, q2, TokenType::RightBrace) {
                                ok(
                                    SpecMatchPattern::StructPattern {
                                        name,
                                        left_brace: ts[q],
                                        fields: fs,
                                        right_brace: ts[q2],
                                    },
                                    r.used + 1 + fields.used + 1,
                                )
                            } else {
                                fail(
                                    error_at(ts, q2, "Expect '}' after struct pattern fields."@),
                                    r.used + 1 + fields.used,
                                )
                            }
                        },
                    }
                } else if check(ts, q, TokenType::LeftParen) {
                    let pats = if !check(ts, q + 1, TokenType::RightParen) {
                        pattern_list_from(ts, q + 1, Seq::empty())
                    } else {
                        ok(Seq::empty(), 0)
                    };
                    match pats.result {
                        Err(e) => fail(e, r.used + 1 + pats.used),
                        Ok(ps) => {
                            let q2 = q + 1 + pats.used;
                            if check(ts, q2, TokenType::RightParen) {
                                ok(
                                    SpecMatchPattern::EnumVariantPattern {
                                        path: name,
                                        fields: Some(SpecEnumVariantPatternFields::Tuple(ts[q], ps, ts[q2])),
                                    },
                                    r.used + 1 + pats.used + 1,
                                )
                            } else {
                                fail(
                                    error_at(ts, q2, "Expect ')' after enum variant pattern fields."@),
                                    r.used + 1 + pats.used,
                                )
                            }
                        },
                    }
                } else if name.segments.len() == 1 {
                    ok(SpecMatchPattern::Identifier(name.segments[0]), r.used)
                } else {
                    ok(SpecMatchPattern::EnumVariantPattern { path: name, fields: None }, r.used)
                }
            },
        }
    } else {
        fail(error_at(ts, p, "Unsupported match pattern."@), 0)
    }
}

/// The fields of a struct pattern: `IDENTIFIER (: PATTERN)? (, ...)*`, a trailing
/// comma allowed before `}`.
pub open spec fn pattern_fields_from(ts: Seq<Token>, p: int, acc: Seq<SpecStructPatternField>) -> Parsed<Seq<SpecStructPatternField>>
    decreases rem(ts, p), 1nat,
{
    if check(ts, p, TokenType::Identifier) {
        let name = ts[p];
        let sub = if check(ts, p + 1, TokenType::Colon) {
            let r = pattern(ts, p + 2);
            match r.result {
                Ok(pat) => ok(Some((ts[p + 1], Box::new(pat))), r.used + 1),
                Err(e) => fail(e, r.used + 1),
            }
        } else {
            ok(None, 0)
        };
        match sub.result {
            Err(e) => fail(e, 1 + sub.used),
            Ok(cp) => {
                let q = p + 1 + sub.used;
                let acc = acc.push(SpecStructPatternField { field_name: name, colon_and_pattern: cp });
                if check(ts, q, TokenType::Comma) {
                    if check(ts, q + 1, TokenType::RightBrace) {
                        ok(acc, 1 + sub.used + 1)
                    } else {
                        bump(pattern_fields_from(ts, q + 1, acc), 1 + sub.used + 1)
                    }
                } else {
                    ok(acc, 1 + sub.used)
                }
            },
        }
    } else {
        fail(error_at(ts, p, "Expect field name in struct pattern."@), 0)
    }
}

/// The patterns of a tuple-like enum variant pattern: `PATTERN (, PATTERN)*`, a
/// trailing comma allowed before `)`.
pub open spec fn pattern_list_from(ts: Seq<Token>, p: int, acc: Seq<SpecMatchPattern>) -> Parsed<Seq<SpecMatchPattern>>
    decreases rem(ts, p), 2nat,
{
    let r = pattern(ts, p);
    match r.result {
        Err(e) => fail(e, r.used),
        Ok(pat) => {
            let q = p + r.used;
            let acc = acc.push(pat);
            if check(ts, q, TokenType::Comma) {
                if check(ts, q + 1, TokenType::RightParen) {
                    ok(acc, r.used + 1)
                } else {
                    bump(pattern_list_from(ts, q + 1, acc), r.used + 1)
                }
            } else {
                ok(acc, r.used)
            }
        },
    }
}

// ---------------------------------------------------------------------------
// Annotations

/// Annotations `@ PATH ( (ARGS) | = EXPRESSION )?`, as many as follow.
#[verifier::opaque]
pub open spec fn annotations_from(ts: Seq<Token>, p: int, acc: Seq<SpecAnnotationNode>) -> Parsed<Seq<SpecAnnotationNode>>
    decreases rem(ts, p), 15nat,
{
    if check(ts, p, TokenType::At) {
        let r = annotation_rest(ts, ts[p], p + 1);
        match r.result {
            Err(e) => fail(e, 1 + r.used),
            Ok(a) => bump(annotations_from(ts, p + 1 + r.used, acc.push(a)), 1 + r.used),
        }
    } else {
        ok(acc, 0)
    }
}

/// An annotation after its `@` token `at_token`.
#[verifier::opaque]
pub open spec fn annotation_rest(ts: Seq<Token>, at_token: Token, p: int) -> Parsed<SpecAnnotationNode>
    decreases rem(ts, p), 1nat,
{
    let n = path(ts, p);
    match n.result {
        Err(e) => fail(e, n.used),
        Ok(name) => {
            let q = p + n.used;
            if check(ts, q, TokenType::LeftParen) {
                let args = if !check(ts, q + 1, TokenType::RightParen) {
                    let first = expression(ts, q + 1, true);
                    match first.result {
                        Err(e) => fail(e, first.used),
                        Ok(x) => bump(annotation_args_from(ts, q + 1 + first.used, seq![x]), first.used),
                    }
                } else {
                    ok(Seq::empty(), 0)
                };
                match args.result {
                    Err(e) => fail(e, n.used + 1 + args.used),
                    Ok(xs) => {
                        let q2 = q + 1 + args.used;
                        if check(ts, q2, TokenType::RightParen) {
                            ok(SpecAnnotationNode { at_token, name, arguments: Some(xs) }, n.used + 1 + args.used + 1)
                        } else {
                            fail(error_at(ts, q2, "Expect ')' after annotation arguments."@), n.used + 1 + args.used)
                        }
                    },
                }
            } else if check(ts, q, TokenType::Equal) {
                let v = expression(ts, q + 1, true);
                match v.result {
                    Err(e) => fail(e, n.used + 1 + v.used),
                    Ok(x) => ok(SpecAnnotationNode { at_token, name, arguments: Some(seq![x]) }, n.used + 1 + v.used),
                }
            } else {
                ok(SpecAnnotationNode { at_token, name, arguments: None }, n.used)
            }
        },
    }
}

/// Further annotation arguments, each after a comma.
#[verifier::opaque]
pub open spec fn annotation_args_from(ts: Seq<Token>, p: int, acc: Seq<SpecExpression>) -> Parsed<Seq<SpecExpression>>
    decreases rem(ts, p), 1nat,
{
    if check(ts, p, TokenType::Comma) {
        let x = expression(ts, p + 1, true);
        match x.result {
            Err(e) => fail(e, 1 + x.used),
            Ok(v) => bump(annotation_args_from(ts, p + 1 + x.used, acc.push(v)), 1 + x.used),
        }
    } else {
        ok(acc, 0)
    }
}

/// `@ PATH ( (ARGS) | = EXPRESSION )?`
pub open spec fn annotation(ts: Seq<Token>, p: int) -> Parsed<SpecAnnotationNode> {
    if check(ts, p, TokenType::At) {
        bump(annotation_rest(ts, ts[p], p + 1), 1)
    } else {
        fail(error_at(ts, p, "Expect '@' for annotation."@), 0)
    }
}

// ---------------------------------------------------------------------------
// Declarations

/// A declaration (`fn`, `let`, `struct`, `enum`, with annotations and an
/// optional `async` before `fn`) or else a statement.
#[verifier::opaque]
pub open spec fn declaration(ts: Seq<Token>, p: int) -> Parsed<SpecStmt>
    decreases rem(ts, p), 20nat,
{
    let a = annotations_from(ts, p, Seq::empty());
    match a.result {
        Err(e) => fail(e, a.used),
        Ok(anns) => {
            let q = p + a.used;
            if check(ts, q, TokenType::Async) && !check(ts, q + 1, TokenType::Fn) {
                fail(error_on(ts[q], "Expect 'fn' after 'async'."@), a.used + 1)
            } else {
                let async_token = if check(ts, q, TokenType::Async) { Some(ts[q]) } else { None };
                let k: nat = if check(ts, q, TokenType::Async) { 1 } else { 0 };
                let q1 = q + k;
                if check(ts, q1, TokenType::Fn) {
                    bump(fn_declaration(ts, q1 + 1, anns, async_token, ts[q1]), a.used + k + 1)
                } else if check(ts, q1, TokenType::Let) {
                    if async_token is Some {
                        fail(error_on(async_token->0, "'async' not applicable to 'let' declaration."@), a.used + k + 1)
                    } else {
                        bump(let_declaration(ts, q1 + 1, anns, ts[q1]), a.used + k + 1)
                    }
                } else if check(ts, q1, TokenType::Struct) {
                    if async_token is Some {
                        fail(error_on(async_token->0, "'async' not applicable to 'struct' declaration."@), a.used + k + 1)
                    } else {
                        bump(struct_declaration(ts, q1 + 1, anns, ts[q1]), a.used + k + 1)
                    }
                } else if check(ts, q1, TokenType::Enum) {
                    if async_token is Some {
                        fail(error_on(async_token->0, "'async' not applicable to 'enum' declaration."@), a.used + k + 1)
                    } else {
                        bump(enum_declaration(ts, q1 + 1, anns, ts[q1]), a.used + k + 1)
                    }
                } else if anns.len() > 0 && async_token is None {
                    fail(error_on(anns.last().at_token, "Expected declaration after annotations."@), a.used + k)
                } else if async_token is Some {
                    fail(error_on(async_token->0, "Expect 'fn' after 'async' (declaration not found)."@), a.used + k)
                } else {
                    bump(statement(ts, q1), a.used + k)
                }
            }
        },
    }
}

/// The rest of a function declaration after `fn`:
/// `IDENTIFIER ( PARAMETERS ) (-> TYPE)? { DECLARATIONS }`.
#[verifier::opaque]
pub open spec fn fn_declaration(
    ts: Seq<Token>,
    p: int,
    anns: Seq<SpecAnnotationNode>,
    async_token: Option<Token>,
    fn_token: Token,
) -> Parsed<SpecStmt>
    decreases rem(ts, p), 1nat,
{
    if !check(ts, p, TokenType::Identifier) {
        fail(error_at(ts, p, "Expect function name."@), 0)
    } else if !check(ts, p + 1, TokenType::LeftParen) {
        fail(error_at(ts, p + 1, "Expect '(' after function name."@), 1)
    } else {
        let ps = parameters(ts, p + 2);
        match ps.result {
            Err(e) => fail(e, 2 + ps.used),
            Ok(params) => {
                let q = p + 2 + ps.used;
                if !check(ts, q, TokenType::RightParen) {
                    fail(error_at(ts, q, "Expect ')' after parameters."@), 2 + ps.used)
                } else {
                    let q1 = q + 1;
                    let rt = if check(ts, q1, TokenType::Arrow) {
                        let t = type_annotation(ts, q1 + 1);
                        match t.result {
                            Ok(ty) => ok((Some(ts[q1]), Some(ty)), 1 + t.used),
                            Err(e) => fail(e, 1 + t.used),
                        }
                    } else {
                        ok((None, None), 0)
                    };
                    match rt.result {
                        Err(e) => fail(e, 3 + ps.used + rt.used),
                        Ok(arrow_and_type) => {
                            let q2 = q1 + rt.used;
                            if !check(ts, q2, TokenType::LeftBrace) {
                                fail(error_at(ts, q2, "Expect '{' before function body."@), 3 + ps.used + rt.used)
                            } else {
                                let b = block_from(ts, q2 + 1, Seq::empty());
                                match b.result {
                                    Err(e) => fail(e, 4 + ps.used + rt.used + b.used),
                                    Ok(body) => {
                                        let q3 = q2 + 1 + b.used;
                                        if !check(ts, q3, TokenType::RightBrace) {
                                            fail(
                                                error_at(ts, q3, "Expect '}' after function body."@),
                                                4 + ps.used + rt.used + b.used,
                                            )
                                        } else {
                                            ok(
                                                SpecStmt::FunctionDecl {
                                                    annotations: anns,
                                                    async_token,
                                                    fn_token,
                                                    name: ts[p],
                                                    params,
                                                    return_type_arrow: arrow_and_type.0,
                                                    return_type: arrow_and_type.1,
                                                    body_left_brace: ts[q2],
                                                    body,
                                                    body_right_brace: ts[q3],
                                                },
                                                5 + ps.used + rt.used + b.used,
                                            )
                                        }
                                    },
                                }
                            }
                        },
                    }
                }
            },
        }
    }
}

/// The parameter list of a function, up to (not including) its `)`.
#[verifier::opaque]
pub open spec fn parameters(ts: Seq<Token>, p: int) -> Parsed<Seq<SpecParameter>>
    decreases rem(ts, p), 17nat,
{
    if !check(ts, p, TokenType::RightParen) {
        parameters_from(ts, p, Seq::empty())
    } else {
        ok(Seq::empty(), 0)
    }
}

/// Parameters `ANNOTATIONS IDENTIFIER (: TYPE)?` separated by commas, a trailing
/// comma allowed before `)`.
#[verifier::opaque]
pub open spec fn parameters_from(ts: Seq<Token>, p: int, acc: Seq<SpecParameter>) -> Parsed<Seq<SpecParameter>>
    decreases rem(ts, p), 16nat,
{
    let a = annotations_from(ts, p, Seq::empty());
    match a.result {
        Err(e) => fail(e, a.used),
        Ok(anns) => {
            let q = p + a.used;
            if !check(ts, q, TokenType::Identifier) {
                fail(error_at(ts, q, "Expect parameter name."@), a.used)
            } else {
                let ty = if check(ts, q + 1, TokenType::Colon) {
                    let t = type_annotation(ts, q + 2);
                    match t.result {
                        Ok(v) => ok((Some(ts[q + 1]), Some(v)), 1 + t.used),
                        Err(e) => fail(e, 1 + t.used),
                    }
                } else {
                    ok((None, None), 0)
                };
                match ty.result {
                    Err(e) => fail(e, a.used + 1 + ty.used),
                    Ok(colon_and_type) => {
                        let u = a.used + 1 + ty.used;
                        let q2 = p + u;
                        let acc = acc.push(
                            SpecParameter {
                                annotations: anns,
                                name: ts[q],
                                colon_token: colon_and_type.0,
                                type_ann: colon_and_type.1,
                            },
                        );
                        if check(ts, q2, TokenType::Comma) {
                            if check(ts, q2 + 1, TokenType::RightParen) {
                                ok(acc, u + 1)
                            } else {
                                bump(parameters_from(ts, q2 + 1, acc), u + 1)
                            }
                        } else {
                            ok(acc, u)
                        }
                    },
                }
            }
        },
    }
}

/// Field declarations `ANNOTATIONS IDENTIFIER : TYPE` separated by commas, up to `}`
/// (a trailing comma allowed); `name_message` and `separator_message` are the
/// errors for a missing field name and a missing separator.
#[verifier::opaque]
pub open spec fn fields_from(
    ts: Seq<Token>,
    p: int,
    acc: Seq<SpecFieldDecl>,
    name_message: Seq<char>,
    separator_message: Seq<char>,
) -> Parsed<Seq<SpecFieldDecl>>
    decreases rem(ts, p), 16nat,
{
    if !check(ts, p, TokenType::RightBrace) && !at_end(ts, p) {
        let a = annotations_from(ts, p, Seq::empty());
        match a.result {
            Err(e) => fail(e, a.used),
            Ok(anns) => {
                let q = p + a.used;
                if !check(ts, q, TokenType::Identifier) {
                    fail(error_at(ts, q, name_message), a.used)
                } else if !check(ts, q + 1, TokenType::Colon) {
                    fail(error_at(ts, q + 1, "Expect ':' after field name."@), a.used + 1)
                } else {
                    let t = type_annotation(ts, q + 2);
                    match t.result {
                        Err(e) => fail(e, a.used + 2 + t.used),
                        Ok(ty) => {
                            let u = a.used + 2 + t.used;
                            let q2 = p + u;
                            let acc = acc.push(
                                SpecFieldDecl { annotations: anns, name: ts[q], colon_token: ts[q + 1], type_ann: ty },
                            );
                            if check(ts, q2, TokenType::Comma) {
                                if check(ts, q2 + 1, TokenType::RightBrace) {
                                    ok(acc, u + 1)
                                } else {
                                    bump(fields_from(ts, q2 + 1, acc, name_message, separator_message), u + 1)
                                }
                            } else if !check(ts, q2, TokenType::RightBrace) {
                                fail(error_at(ts, q2, separator_message), u)
                            } else {
                                ok(acc, u)
                            }
                        },
                    }
                }
            },
        }
    } else {
        ok(acc, 0)
    }
}

/// The rest of a struct declaration after `struct`: `IDENTIFIER { FIELDS }`.
#[verifier::opaque]
pub open spec fn struct_declaration(ts: Seq<Token>, p: int, anns: Seq<SpecAnnotationNode>, struct_token: Token) -> Parsed<SpecStmt>
    decreases rem(ts, p), 1nat,
{
    if !check(ts, p, TokenType::Identifier) {
        fail(error_at(ts, p, "Expect struct name."@), 0)
    } else if !check(ts, p + 1, TokenType::LeftBrace) {
        fail(error_at(ts, p + 1, "Expect '{' before struct fields."@), 1)
    } else {
        let f = fields_from(
            ts,
            p + 2,
            Seq::empty(),
            "Expect field name."@,
            "Expect ',' or '}' after field declaration."@,
        );
        match f.result {
            Err(e) => fail(e, 2 + f.used),
            Ok(fields) => {
                let q = p + 2 + f.used;
                if check(ts, q, TokenType::RightBrace) {
                    ok(
                        SpecStmt::StructDecl {
                            annotations: anns,
                            struct_token,
                            name: ts[p],
                            left_brace: ts[p + 1],
                            fields,
                            right_brace: ts[q],
                        },
                        3 + f.used,
                    )
                } else {
                    fail(error_at(ts, q, "Expect '}' after struct fields."@), 2 + f.used)
                }
            },
        }
    }
}

/// The data of an enum variant, if any: `( TYPES )` or `{ FIELDS }`.
#[verifier::opaque]
pub open spec fn variant_fields(ts: Seq<Token>, p: int) -> Parsed<Option<SpecVariantFields>>
    decreases rem(ts, p), 1nat,
{
    if check(ts, p, TokenType::LeftParen) {
        let tys = if !check(ts, p + 1, TokenType::RightParen) {
            tuple_types_from(ts, p + 1, Seq::empty())
        } else {
            ok(Seq::empty(), 0)
        };
        match tys.result {
            Err(e) => fail(e, 1 + tys.used),
            Ok(types) => {
                let q = p + 1 + tys.used;
                if check(ts, q, TokenType::RightParen) {
                    ok(Some(SpecVariantFields::Tuple(ts[p], types, ts[q])), 2 + tys.used)
                } else {
                    fail(error_at(ts, q, "Expect ')' after tuple variant types."@), 1 + tys.used)
                }
            },
        }
    } else if check(ts, p, TokenType::LeftBrace) {
        let f = fields_from(
            ts,
            p + 1,
            Seq::empty(),
            "Expect field name in struct variant."@,
            "Expect ',' or '}' after struct variant field."@,
        );
        match f.result {
            Err(e) => fail(e, 1 + f.used),
            Ok(fields) => {
                let q = p + 1 + f.used;
                if check(ts, q, TokenType::RightBrace) {
                    ok(Some(SpecVariantFields::Struct(ts[p], fields, ts[q])), 2 + f.used)
                } else {
                    fail(error_at(ts, q, "Expect '}' after struct variant fields."@), 1 + f.used)
                }
            },
        }
    } else {
        ok(None, 0)
    }
}

/// Enum variants `ANNOTATIONS IDENTIFIER DATA?` separated by commas, up to `}`
/// (a trailing comma allowed).
#[verifier::opaque]
pub open spec fn variants_from(ts: Seq<Token>, p: int, acc: Seq<SpecVariantDecl>) -> Parsed<Seq<SpecVariantDecl>>
    decreases rem(ts, p), 16nat,
{
    if !check(ts, p, TokenType::RightBrace) && !at_end(ts, p) {
        let a = annotations_from(ts, p, Seq::empty());
        match a.result {
            Err(e) => fail(e, a.used),
            Ok(anns) => {
                let q = p + a.used;
                if !check(ts, q, TokenType::Identifier) {
                    fail(error_at(ts, q, "Expect variant name."@), a.used)
                } else {
                    let vf = variant_fields(ts, q + 1);
                    match vf.result {
                        Err(e) => fail(e, a.used + 1 + vf.used),
                        Ok(fields) => {
                            let u = a.used + 1 + vf.used;
                            let q2 = p + u;
                            let acc = acc.push(SpecVariantDecl { annotations: anns, name: ts[q], fields });
                            if check(ts, q2, TokenType::Comma) {
                                if check(ts, q2 + 1, TokenType::RightBrace) {
                                    ok(acc, u + 1)
                                } else {
                                    bump(variants_from(ts, q2 + 1, acc), u + 1)
                                }
                            } else if !check(ts, q2, TokenType::RightBrace) {
                                fail(error_at(ts, q2, "Expect ',' or '}' after enum variant."@), u)
                            } else {
                                ok(acc, u)
                            }
                        },
                    }
                }
            },
        }
    } else {
        ok(acc, 0)
    }
}

/// The rest of an enum declaration after `enum`: `IDENTIFIER { VARIANTS }`.
#[verifier::opaque]
pub open spec fn enum_declaration(ts: Seq<Token>, p: int, anns: Seq<SpecAnnotationNode>, enum_token: Token) -> Parsed<SpecStmt>
    decreases rem(ts, p), 1nat,
{
    if !check(ts, p, TokenType::Identifier) {
        fail(error_at(ts, p, "Expect enum name."@), 0)
    } else if !check(ts, p + 1, TokenType::LeftBrace) {
        fail(error_at(ts, p + 1, "Expect '{' before enum variants."@), 1)
    } else {
        let v = variants_from(ts, p + 2, Seq::empty());
        match v.result {
            Err(e) => fail(e, 2 + v.used),
            Ok(variants) => {
                let q = p + 2 + v.used;
                if check(ts, q, TokenType::RightBrace) {
                    ok(
                        SpecStmt::EnumDecl {
                            annotations: anns,
                            enum_token,
                            name: ts[p],
                            left_brace: ts[p + 1],
                            variants,
                            right_brace: ts[q],
                        },
                        3 + v.used,
                    )
                } else {
                    fail(error_at(ts, q, "Expect '}' after enum variants."@), 2 + v.used)
                }
            },
        }
    }
}

/// The rest of a let declaration after `let`: `IDENTIFIER (: TYPE)? (= EXPRESSION)? ;`.
#[verifier::opaque]
pub open spec fn let_declaration(ts: Seq<Token>, p: int, anns: Seq<SpecAnnotationNode>, let_token: Token) -> Parsed<SpecStmt>
    decreases rem(ts, p), 1nat,
{
    if !check(ts, p, TokenType::Identifier) {
        fail(error_at(ts, p, "Expect variable name."@), 0)
    } else {
        let ty = if check(ts, p + 1, TokenType::Colon) {
            let t = type_annotation(ts, p + 2);
            match t.result {
                Ok(v) => ok(Some(v), 1 + t.used),
                Err(e) => fail(e, 1 + t.used),
            }
        } else {
            ok(None, 0)
        };
        match ty.result {
            Err(e) => fail(e, 1 + ty.used),
            Ok(type_ann) => {
                let q = p + 1 + ty.used;
                let init = if check(ts, q, TokenType::Equal) {
                    let x = expression(ts, q + 1, true);
                    match x.result {
                        Ok(v) => ok(Some(Box::new(v)), 1 + x.used),
                        Err(e) => fail(e, 1 + x.used),
                    }
                } else {
                    ok(None, 0)
                };
                match init.result {
                    Err(e) => fail(e, 1 + ty.used + init.used),
                    Ok(initializer) => {
                        let q2 = q + init.used;
                        if check(ts, q2, TokenType::Semicolon) {
                            ok(
                                SpecStmt::LetDecl { annotations: anns, let_token, name: ts[p], type_ann, initializer },
                                2 + ty.used + init.used,
                            )
                        } else {
                            fail(error_at(ts, q2, "Expect ';' after variable declaration."@), 1 + ty.used + init.used)
                        }
                    },
                }
            },
        }
    }
}

// ---------------------------------------------------------------------------
// Statements

/// A statement: `if`, a block, `return`, `while`, `for`, or an expression statement.
#[verifier::opaque]
pub open spec fn statement(ts: Seq<Token>, p: int) -> Parsed<SpecStmt>
    decreases rem(ts, p), 19nat,
{
    if check(ts, p, TokenType::If) {
        if_statement(ts, p)
    } else if check(ts, p, TokenType::LeftBrace) {
        let b = block_from(ts, p + 1, Seq::empty());
        match b.result {
            Err(e) => fail(e, 1 + b.used),
            Ok(statements) => {
                let q = p + 1 + b.used;
                if check(ts, q, TokenType::RightBrace) {
                    ok(SpecStmt::Block { left_brace: ts[p], statements, right_brace: ts[q] }, 2 + b.used)
                } else {
                    fail(error_at(ts, q, "Expect '}' after block."@), 1 + b.used)
                }
            },
        }
    } else if check(ts, p, TokenType::Return) {
        bump(return_statement(ts, p + 1, ts[p]), 1)
    } else if check(ts, p, TokenType::While) {
        while_statement(ts, p)
    } else if check(ts, p, TokenType::For) {
        for_statement(ts, p)
    } else {
        expression_statement(ts, p)
    }
}

/// Declarations up to `}` or the end.
#[verifier::opaque]
pub open spec fn block_from(ts: Seq<Token>, p: int, acc: Seq<SpecStmt>) -> Parsed<Seq<SpecStmt>>
    decreases rem(ts, p), 21nat,
{
    if !check(ts, p, TokenType::RightBrace) && !at_end(ts, p) {
        let d = declaration(ts, p);
        match d.result {
            Err(e) => fail(e, d.used),
            Ok(s) => {
                // A declaration always takes at least one token.
                if d.used > 0 {
                    bump(block_from(ts, p + d.used, acc.push(s)), d.used)
                } else {
                    ok(acc.push(s), 0)
                }
            },
        }
    } else {
        ok(acc, 0)
    }
}

/// `if EXPRESSION STATEMENT (else if EXPRESSION STATEMENT)* (else STATEMENT)?`
#[verifier::opaque]
pub open spec fn if_statement(ts: Seq<Token>, p: int) -> Parsed<SpecStmt>
    decreases rem(ts, p), 18nat,
{
    if !check(ts, p, TokenType::If) {
        fail(error_at(ts, p, "Expect 'if'."@), 0)
    } else {
        let c = expression(ts, p + 1, false);
        match c.result {
            Err(e) => fail(e, 1 + c.used),
            Ok(condition) => {
                let s = statement(ts, p + 1 + c.used);
                match s.result {
                    Err(e) => fail(e, 1 + c.used + s.used),
                    Ok(then_branch) => {
                        let u = 1 + c.used + s.used;
                        let ei = else_ifs_from(ts, p + u, Seq::empty());
                        match ei.result {
                            Err(e) => fail(e, u + ei.used),
                            Ok(else_if_branches) => {
                                let q = p + u + ei.used;
                                if check(ts, q, TokenType::Else) {
                                    let b = statement(ts, q + 1);
                                    match b.result {
                                        Err(e) => fail(e, u + ei.used + 1 + b.used),
                                        Ok(branch) => ok(
                                            SpecStmt::IfStmt {
                                                if_token: ts[p],
                                                condition: Box::new(condition),
                                                then_branch: Box::new(then_branch),
                                                else_if_branches,
                                                else_branch: Some(SpecElseBranch { else_token: ts[q], branch: Box::new(branch) }),
                                            },
                                            u + ei.used + 1 + b.used,
                                        ),
                                    }
                                } else {
                                    ok(
                                        SpecStmt::IfStmt {
                                            if_token: ts[p],
                                            condition: Box::new(condition),
                                            then_branch: Box::new(then_branch),
                                            else_if_branches,
                                            else_branch: None,
                                        },
                                        u + ei.used,
                                    )
                                }
                            },
                        }
                    },
                }
            },
        }
    }
}

/// `else if EXPRESSION STATEMENT` branches, as many as follow.
#[verifier::opaque]
pub open spec fn else_ifs_from(ts: Seq<Token>, p: int, acc: Seq<SpecElseIfBranch>) -> Parsed<Seq<SpecElseIfBranch>>
    decreases rem(ts, p), 1nat,
{
    if check(ts, p, TokenType::Else) && check_next(ts, p, TokenType::If) {
        let c = expression(ts, p + 2, false);
        match c.result {
            Err(e) => fail(e, 2 + c.used),
            Ok(condition) => {
                let s = statement(ts, p + 2 + c.used);
                match s.result {
                    Err(e) => fail(e, 2 + c.used + s.used),
                    Ok(branch) => {
                        let u = 2 + c.used + s.used;
                        bump(
                            else_ifs_from(
                                ts,
                                p + u,
                                acc.push(
                                    SpecElseIfBranch {
                                        else_token: ts[p],
                                        if_token: ts[p + 1],
                                        condition: Box::new(condition),
                                        then_branch: Box::new(branch),
                                    },
                                ),
                            ),
                            u,
                        )
                    },
                }
            },
        }
    } else {
        ok(acc, 0)
    }
}

/// `while EXPRESSION STATEMENT`
#[verifier::opaque]
pub open spec fn while_statement(ts: Seq<Token>, p: int) -> Parsed<SpecStmt>
    decreases rem(ts, p), 18nat,
{
    if !check(ts, p, TokenType::While) {
        fail(error_at(ts, p, "Expect 'while'."@), 0)
    } else {
        let c = expression(ts, p + 1, false);
        match c.result {
            Err(e) => fail(e, 1 + c.used),
            Ok(condition) => {
                let b = statement(ts, p + 1 + c.used);
                match b.result {
                    Err(e) => fail(e, 1 + c.used + b.used),
                    Ok(body) => ok(
                        SpecStmt::WhileStmt { while_token: ts[p], condition: Box::new(condition), body: Box::new(body) },
                        1 + c.used + b.used,
                    ),
                }
            },
        }
    }
}

/// `for IDENTIFIER in EXPRESSION STATEMENT`
#[verifier::opaque]
pub open spec fn for_statement(ts: Seq<Token>, p: int) -> Parsed<SpecStmt>
    decreases rem(ts, p), 18nat,
{
    if !check(ts, p, TokenType::For) {
        fail(error_at(ts, p, "Expect 'for'."@), 0)
    } else if !check(ts, p + 1, TokenType::Identifier) {
        fail(error_at(ts, p + 1, "Expect variable name in for loop."@), 1)
    } else if !check(ts, p + 2, TokenType::In) {
        fail(error_at(ts, p + 2, "Expect 'in' keyword in for loop."@), 2)
    } else {
        let c = expression(ts, p + 3, false);
        match c.result {
            Err(e) => fail(e, 3 + c.used),
            Ok(iterable) => {
                let b = statement(ts, p + 3 + c.used);
                match b.result {
                    Err(e) => fail(e, 3 + c.used + b.used),
                    Ok(body) => ok(
                        SpecStmt::ForStmt {
                            for_token: ts[p],
                            variable: ts[p + 1],
                            in_token: ts[p + 2],
                            iterable: Box::new(iterable),
                            body: Box::new(body),
                        },
                        3 + c.used + b.used,
                    ),
                }
            },
        }
    }
}

/// The rest of a return statement after `return`: `EXPRESSION? ;`.
#[verifier::opaque]
pub open spec fn return_statement(ts: Seq<Token>, p: int, return_token: Token) -> Parsed<SpecStmt>
    decreases rem(ts, p), 18nat,
{
    let v = if !check(ts, p, TokenType::Semicolon) {
        let x = expression(ts, p, true);
        match x.result {
            Ok(e) => ok(Some(Box::new(e)), x.used),
            Err(e) => fail(e, x.used),
        }
    } else {
        ok(None, 0)
    };
    match v.result {
        Err(e) => fail(e, v.used),
        Ok(value) => {
            let q = p + v.used;
            if check(ts, q, TokenType::Semicolon) {
                ok(SpecStmt::ReturnStmt { return_token, value }, v.used + 1)
            } else {
                fail(error_at(ts, q, "Expect ';' after return value."@), v.used)
            }
        },
    }
}

/// `EXPRESSION ;`
#[verifier::opaque]
pub open spec fn expression_statement(ts: Seq<Token>, p: int) -> Parsed<SpecStmt>
    decreases rem(ts, p), 18nat,
{
    let x = expression(ts, p, true);
    match x.result {
        Err(e) => fail(e, x.used),
        Ok(e) => {
            let q = p + x.used;
            if check(ts, q, TokenType::Semicolon) {
                ok(SpecStmt::ExpressionStmt(Box::new(e)), x.used + 1)
            } else {
                fail(error_at(ts, q, "Expect ';' after expression."@), x.used)
            }
        },
    }
}

// ---------------------------------------------------------------------------
// Expressions

/// An expression. When `structs` is false, as in the condition of `if`,
/// `else if` and `while`, the iterable of `for` and the operand of `match`, a
/// lone identifier followed by `{` is not read as a struct literal: the brace
/// opens the body that follows, as in `if x { ... }`. Inside parentheses, call
/// arguments and struct literal fields, struct literals are read again.
#[verifier::opaque]
pub open spec fn expression(ts: Seq<Token>, p: int, structs: bool) -> Parsed<SpecExpression>
    decreases rem(ts, p), 14nat,
{
    assignment(ts, p, structs)
}

/// The postfix expression that an expression is, if it is nothing more (the
/// only expressions that may be assigned to).
pub open spec fn assign_target(e: SpecExpression) -> Option<Box<SpecPostfix>> {
    match e {
        SpecExpression::LogicalOr(o) => match *o {
            SpecLogicalOr::Next(a) => match *a {
                SpecLogicalAnd::Next(q) => match *q {
                    SpecEquality::Next(c) => match *c {
                        SpecComparison::Next(t) => match *t {
                            SpecTerm::Next(f) => match *f {
                                SpecFactor::Next(u) => match *u {
                                    SpecUnary::Next(pf) => Some(pf),
                                    _ => None,
                                },
                                _ => None,
                            },
                            _ => None,
                        },
                        _ => None,
                    },
                    _ => None,
                },
                _ => None,
            },
            _ => None,
        },
        _ => None,
    }
}

/// `TARGET = ASSIGNMENT` (right-associative) or a logical-or expression.
#[verifier::opaque]
pub open spec fn assignment(ts: Seq<Token>, p: int, structs: bool) -> Parsed<SpecExpression>
    decreases rem(ts, p), 13nat,
{
    let l = logical_or_entry(ts, p, structs);
    match l.result {
        Err(e) => fail(e, l.used),
        Ok(expr) => {
            let q = p + l.used;
            if check(ts, q, TokenType::Equal) {
                let v = assignment(ts, q + 1, structs);
                match v.result {
                    Err(e) => fail(e, l.used + 1 + v.used),
                    Ok(value) => match assign_target(expr) {
                        Some(target) => ok(
                            SpecExpression::Assign { target, equals_token: ts[q], value: Box::new(value) },
                            l.used + 1 + v.used,
                        ),
                        None => fail(
                            error_on(ts[q], "Invalid assignment target. Expected an identifier or property access."@),
                            l.used + 1 + v.used,
                        ),
                    },
                }
            } else {
                ok(expr, l.used)
            }
        },
    }
}

/// A logical-or expression, as an expression.
#[verifier::opaque]
pub open spec fn logical_or_entry(ts: Seq<Token>, p: int, structs: bool) -> Parsed<SpecExpression>
    decreases rem(ts, p), 12nat,
{
    let r = logical_or(ts, p, structs);
    match r.result {
        Err(e) => fail(e, r.used),
        Ok(v) => ok(SpecExpression::LogicalOr(Box::new(v)), r.used),
    }
}

/// `AND (or AND)?`
#[verifier::opaque]
pub open spec fn logical_or(ts: Seq<Token>, p: int, structs: bool) -> Parsed<SpecLogicalOr>
    decreases rem(ts, p), 11nat,
{
    let l = logical_and(ts, p, structs);
    match l.result {
        Err(e) => fail(e, l.used),
        Ok(left) => {
            let q = p + l.used;
            if check(ts, q, TokenType::Or) {
                let r = logical_and(ts, q + 1, structs);
                match r.result {
                    Err(e) => fail(e, l.used + 1 + r.used),
                    Ok(right) => ok(
                        SpecLogicalOr::Binary { left: Box::new(left), operator: ts[q], right: Box::new(right) },
                        l.used + 1 + r.used,
                    ),
                }
            } else {
                ok(SpecLogicalOr::Next(Box::new(left)), l.used)
            }
        },
    }
}

/// `EQUALITY (and EQUALITY)?`
#[verifier::opaque]
pub open spec fn logical_and(ts: Seq<Token>, p: int, structs: bool) -> Parsed<SpecLogicalAnd>
    decreases rem(ts, p), 10nat,
{
    let l = equality(ts, p, structs);
    match l.result {
        Err(e) => fail(e, l.used),
        Ok(left) => {
            let q = p + l.used;
            if check(ts, q, TokenType::And) {
                let r = equality(ts, q + 1, structs);
                match r.result {
                    Err(e) => fail(e, l.used + 1 + r.used),
                    Ok(right) => ok(
                        SpecLogicalAnd::Binary { left: Box::new(left), operator: ts[q], right: Box::new(right) },
                        l.used + 1 + r.used,
                    ),
                }
            } else {
                ok(SpecLogicalAnd::Next(Box::new(left)), l.used)
            }
        },
    }
}

/// The operators of an equality expression.
pub open spec fn equality_operators() -> Seq<TokenType> {
    seq![TokenType::BangEqual, TokenType::EqualEqual]
}

/// `COMPARISON ((!= | ==) COMPARISON)?`
#[verifier::opaque]
pub open spec fn equality(ts: Seq<Token>, p: int, structs: bool) -> Parsed<SpecEquality>
    decreases rem(ts, p), 9nat,
{
    let l = comparison(ts, p, structs);
    match l.result {
        Err(e) => fail(e, l.used),
        Ok(left) => {
            let q = p + l.used;
            if check_any(ts, q, equality_operators()) {
                let r = comparison(ts, q + 1, structs);
                match r.result {
                    Err(e) => fail(e, l.used + 1 + r.used),
                    Ok(right) => ok(
                        SpecEquality::Binary { left: Box::new(left), operator: ts[q], right: Box::new(right) },
                        l.used + 1 + r.used,
                    ),
                }
            } else {
                ok(SpecEquality::Next(Box::new(left)), l.used)
            }
        },
    }
}

/// The operators of a comparison.
pub open spec fn comparison_operators() -> Seq<TokenType> {
    seq![TokenType::Greater, TokenType::GreaterEqual, TokenType::Less, TokenType::LessEqual]
}

/// `TERM ((> | >= | < | <=) TERM)?`
#[verifier::opaque]
pub open spec fn comparison(ts: Seq<Token>, p: int, structs: bool) -> Parsed<SpecComparison>
    decreases rem(ts, p), 8nat,
{
    let l = term(ts, p, structs);
    match l.result {
        Err(e) => fail(e, l.used),
        Ok(left) => {
            let q = p + l.used;
            if check_any(ts, q, comparison_operators()) {
                let r = term(ts, q + 1, structs);
                match r.result {
                    Err(e) => fail(e, l.used + 1 + r.used),
                    Ok(right) => ok(
                        SpecComparison::Binary { left: Box::new(left), operator: ts[q], right: Box::new(right) },
                        l.used + 1 + r.used,
                    ),
                }
            } else {
                ok(SpecComparison::Next(Box::new(left)), l.used)
            }
        },
    }
}

/// The operators of a term.
pub open spec fn term_operators() -> Seq<TokenType> {
    seq![TokenType::Minus, TokenType::Plus]
}

/// `FACTOR ((- | +) FACTOR)?`
#[verifier::opaque]
pub open spec fn term(ts: Seq<Token>, p: int, structs: bool) -> Parsed<SpecTerm>
    decreases rem(ts, p), 7nat,
{
    let l = factor(ts, p, structs);
    match l.result {
        Err(e) => fail(e, l.used),
        Ok(left) => {
            let q = p + l.used;
            if check_any(ts, q, term_operators()) {
                let r = factor(ts, q + 1, structs);
                match r.result {
                    Err(e) => fail(e, l.used + 1 + r.used),
                    Ok(right) => ok(
                        SpecTerm::Binary { left: Box::new(left), operator: ts[q], right: Box::new(right) },
                        l.used + 1 + r.used,
                    ),
                }
            } else {
                ok(SpecTerm::Next(Box::new(left)), l.used)
            }
        },
    }
}

/// The operators of a factor.
pub open spec fn factor_operators() -> Seq<TokenType> {
    seq![TokenType::Slash, TokenType::Star]
}

/// `UNARY ((/ | *) UNARY)?`
#[verifier::opaque]
pub open spec fn factor(ts: Seq<Token>, p: int, structs: bool) -> Parsed<SpecFactor>
    decreases rem(ts, p), 6nat,
{
    let l = unary(ts, p, structs);
    match l.result {
        Err(e) => fail(e, l.used),
        Ok(left) => {
            let q = p + l.used;
            if check_any(ts, q, factor_operators()) {
                let r = unary(ts, q + 1, structs);
                match r.result {
                    Err(e) => fail(e, l.used + 1 + r.used),
                    Ok(right) => ok(
                        SpecFactor::Binary { left: Box::new(left), operator: ts[q], right: Box::new(right) },
                        l.used + 1 + r.used,
                    ),
                }
            } else {
                ok(SpecFactor::Next(Box::new(left)), l.used)
            }
        },
    }
}

/// The prefix operators.
pub open spec fn unary_operators() -> Seq<TokenType> {
    seq![TokenType::Bang, TokenType::Minus]
}

/// `(! | -) UNARY` or a postfix expression.
#[verifier::opaque]
pub open spec fn unary(ts: Seq<Token>, p: int, structs: bool) -> Parsed<SpecUnary>
    decreases rem(ts, p), 5nat,
{
    if check_any(ts, p, unary_operators()) {
        let r = unary(ts, p + 1, structs);
        match r.result {
            Err(e) => fail(e, 1 + r.used),
            Ok(operand) => ok(SpecUnary::Prefixed { operator: ts[p], operand: Box::new(operand) }, 1 + r.used),
        }
    } else {
        let r = postfix(ts, p, structs);
        match r.result {
            Err(e) => fail(e, r.used),
            Ok(v) => ok(SpecUnary::Next(Box::new(v)), r.used),
        }
    }
}

/// `PRIMARY ( ( ARGUMENTS ) | . IDENTIFIER )*`
#[verifier::opaque]
pub open spec fn postfix(ts: Seq<Token>, p: int, structs: bool) -> Parsed<SpecPostfix>
    decreases rem(ts, p), 4nat,
{
    let r = primary(ts, p, structs);
    match r.result {
        Err(e) => fail(e, r.used),
        Ok(v) => bump(postfix_from(ts, p + r.used, SpecPostfix::Item(Box::new(v))), r.used),
    }
}

/// Calls and property accesses applied to `acc`, as many as follow.
#[verifier::opaque]
pub open spec fn postfix_from(ts: Seq<Token>, p: int, acc: SpecPostfix) -> Parsed<SpecPostfix>
    decreases rem(ts, p), 3nat,
{
    if check(ts, p, TokenType::LeftParen) {
        let a = arguments(ts, p + 1);
        match a.result {
            Err(e) => fail(e, 1 + a.used),
            Ok(args) => {
                let q = p + 1 + a.used;
                if check(ts, q, TokenType::RightParen) {
                    bump(
                        postfix_from(
                            ts,
                            q + 1,
                            SpecPostfix::FunctionCall {
                                callee: Box::new(acc),
                                left_paren: ts[p],
                                arguments: args,
                                right_paren: ts[q],
                            },
                        ),
                        2 + a.used,
                    )
                } else {
                    fail(error_at(ts, q, "Expect ')' after arguments."@), 1 + a.used)
                }
            },
        }
    } else if check(ts, p, TokenType::Dot) {
        if check(ts, p + 1, TokenType::Identifier) {
            bump(
                postfix_from(
                    ts,
                    p + 2,
                    SpecPostfix::PropertyGet {
                        object: Box::new(acc),
                        dot_token: ts[p],
                        optional_chain_token: None,
                        name: ts[p + 1],
                    },
                ),
                2,
            )
        } else {
            fail(error_at(ts, p + 1, "Expect property name after '.'"@), 1)
        }
    } else {
        ok(acc, 0)
    }
}

/// The arguments of a call, up to (not including) its `)`.
#[verifier::opaque]
pub open spec fn arguments(ts: Seq<Token>, p: int) -> Parsed<Seq<SpecExpression>>
    decreases rem(ts, p), 16nat,
{
    if !check(ts, p, TokenType::RightParen) {
        arguments_from(ts, p, Seq::empty())
    } else {
        ok(Seq::empty(), 0)
    }
}

/// Expressions separated by commas, a trailing comma allowed before `)`.
#[verifier::opaque]
pub open spec fn arguments_from(ts: Seq<Token>, p: int, acc: Seq<SpecExpression>) -> Parsed<Seq<SpecExpression>>
    decreases rem(ts, p), 15nat,
{
    let x = expression(ts, p, true);
    match x.result {
        Err(e) => fail(e, x.used),
        Ok(v) => {
            let q = p + x.used;
            let acc = acc.push(v);
            if check(ts, q, TokenType::Comma) {
                if check(ts, q + 1, TokenType::RightParen) {
                    ok(acc, x.used + 1)
                } else {
                    bump(arguments_from(ts, q + 1, acc), x.used + 1)
                }
            } else {
                ok(acc, x.used)
            }
        },
    }
}

/// A primary expression: a literal, an identifier, a struct literal (only
/// where `structs` allows one), a path, a parenthesised expression, or a match
/// expression.
#[verifier::opaque]
pub open spec fn primary(ts: Seq<Token>, p: int, structs: bool) -> Parsed<SpecPrimary>
    decreases rem(ts, p), 3nat,
{
    if check(ts, p, TokenType::False) {
        ok(SpecPrimary::Literal(LiteralValue::Boolean(false)), 1)
    } else if check(ts, p, TokenType::True) {
        ok(SpecPrimary::Literal(LiteralValue::Boolean(true)), 1)
    } else if check(ts, p, TokenType::Null) {
        ok(SpecPrimary::Literal(LiteralValue::Null), 1)
    } else if check(ts, p, TokenType::Number) || check(ts, p, TokenType::String) {
        match ts[p].literal {
            Some(lv) => ok(SpecPrimary::Literal(lv), 1),
            None => fail(error_on(ts[p], "Expected literal value not found in token."@), 1),
        }
    } else if check(ts, p, TokenType::Identifier) {
        let r = path(ts, p);
        match r.result {
            Err(e) => fail(e, r.used),
            Ok(pe) => {
                let q = p + r.used;
                if structs && check(ts, q, TokenType::LeftBrace) && pe.segments.len() == 1 {
                    bump(struct_literal(ts, q, pe.segments[0]), r.used)
                } else if pe.segments.len() == 1 && !check(ts, q, TokenType::DoubleColon) {
                    ok(SpecPrimary::Identifier(pe.segments[0]), r.used)
                } else {
                    ok(SpecPrimary::EnumPath(pe), r.used)
                }
            },
        }
    } else if check(ts, p, TokenType::LeftParen) {
        let x = expression(ts, p + 1, true);
        match x.result {
            Err(e) => fail(e, 1 + x.used),
            Ok(e) => {
                let q = p + 1 + x.used;
                if check(ts, q, TokenType::RightParen) {
                    ok(SpecPrimary::Grouping { left_paren: ts[p], expression: Box::new(e), right_paren: ts[q] }, 2 + x.used)
                } else {
                    fail(error_at(ts, q, "Expect ')' after expression."@), 1 + x.used)
                }
            },
        }
    } else if check(ts, p, TokenType::Match) {
        match_expression(ts, p)
    } else {
        fail(error_at(ts, p, "Expect expression."@), 0)
    }
}

/// `{ IDENTIFIER : EXPRESSION, ... }` after the struct name `name`.
#[verifier::opaque]
pub open spec fn struct_literal(ts: Seq<Token>, p: int, name: Token) -> Parsed<SpecPrimary>
    decreases rem(ts, p), 2nat,
{
    if !check(ts, p, TokenType::LeftBrace) {
        fail(error_at(ts, p, "Expect '{' for struct literal."@), 0)
    } else {
        let f = if !check(ts, p + 1, TokenType::RightBrace) {
            literal_fields_from(ts, p + 1, Seq::empty())
        } else {
            ok(Seq::empty(), 0)
        };
        match f.result {
            Err(e) => fail(e, 1 + f.used),
            Ok(fields) => {
                let q = p + 1 + f.used;
                if check(ts, q, TokenType::RightBrace) {
                    ok(SpecPrimary::StructLiteral { name, left_brace: ts[p], fields, right_brace: ts[q] }, 2 + f.used)
                } else {
                    fail(error_at(ts, q, "Expect '}' after struct literal fields."@), 1 + f.used)
                }
            },
        }
    }
}

/// Fields `IDENTIFIER : EXPRESSION` separated by commas, a trailing comma allowed before `}`.
#[verifier::opaque]
pub open spec fn literal_fields_from(ts: Seq<Token>, p: int, acc: Seq<SpecStructLiteralField>) -> Parsed<Seq<SpecStructLiteralField>>
    decreases rem(ts, p), 1nat,
{
    if !check(ts, p, TokenType::Identifier) {
        fail(error_at(ts, p, "Expect field name in struct literal."@), 0)
    } else if !check(ts, p + 1, TokenType::Colon) {
        fail(error_at(ts, p + 1, "Expect ':' after field name in struct literal."@), 1)
    } else {
        let x = expression(ts, p + 2, true);
        match x.result {
            Err(e) => fail(e, 2 + x.used),
            Ok(v) => {
                let u = 2 + x.used;
                let q = p + u;
                let acc = acc.push(SpecStructLiteralField { name: ts[p], colon_token: ts[p + 1], value: Box::new(v) });
                if check(ts, q, TokenType::Comma) {
                    if check(ts, q + 1, TokenType::RightBrace) {
                        ok(acc, u + 1)
                    } else {
                        bump(literal_fields_from(ts, q + 1, acc), u + 1)
                    }
                } else {
                    ok(acc, u)
                }
            },
        }
    }
}

/// `match EXPRESSION { ARMS }`
#[verifier::opaque]
pub open spec fn match_expression(ts: Seq<Token>, p: int) -> Parsed<SpecPrimary>
    decreases rem(ts, p), 2nat,
{
    if !check(ts, p, TokenType::Match) {
        fail(error_at(ts, p, "Expect 'match' keyword."@), 0)
    } else {
        let x = expression(ts, p + 1, false);
        match x.result {
            Err(e) => fail(e, 1 + x.used),
            Ok(scrutinee) => {
                let q = p + 1 + x.used;
                if !check(ts, q, TokenType::LeftBrace) {
                    fail(error_at(ts, q, "Expect '{' after match expression."@), 1 + x.used)
                } else {
                    let a = arms_from(ts, q + 1, Seq::empty());
                    match a.result {
                        Err(e) => fail(e, 2 + x.used + a.used),
                        Ok(arms) => {
                            let q2 = q + 1 + a.used;
                            if check(ts, q2, TokenType::RightBrace) {
                                ok(
                                    SpecPrimary::MatchExpr {
                                        match_token: ts[p],
                                        expression: Box::new(scrutinee),
                                        left_brace: ts[q],
                                        arms,
                                        right_brace: ts[q2],
                                    },
                                    3 + x.used + a.used,
                                )
                            } else {
                                fail(error_at(ts, q2, "Expect '}' after match arms."@), 2 + x.used + a.used)
                            }
                        },
                    }
                }
            },
        }
    }
}

/// Match arms `PATTERN => EXPRESSION`, each but the last followed by a comma,
/// up to `}` or the end.
#[verifier::opaque]
pub open spec fn arms_from(ts: Seq<Token>, p: int, acc: Seq<SpecMatchArm>) -> Parsed<Seq<SpecMatchArm>>
    decreases rem(ts, p), 1nat,
{
    if !check(ts, p, TokenType::RightBrace) && !at_end(ts, p) {
        let pt = pattern(ts, p);
        match pt.result {
            Err(e) => fail(e, pt.used),
            Ok(pat) => {
                let q = p + pt.used;
                if !check(ts, q, TokenType::FatArrow) {
                    fail(error_at(ts, q, "Expect '=>' after match pattern."@), pt.used)
                } else {
                    let b = expression(ts, q + 1, true);
                    match b.result {
                        Err(e) => fail(e, pt.used + 1 + b.used),
                        Ok(body) => {
                            let u = pt.used + 1 + b.used;
                            let q2 = p + u;
                            let comma = if check(ts, q2, TokenType::Comma) { Some(ts[q2]) } else { None };
                            let k: nat = if check(ts, q2, TokenType::Comma) { 1 } else { 0 };
                            let acc = acc.push(
                                SpecMatchArm { pattern: pat, arrow_token: ts[q], body: Box::new(body), comma_token: comma },
                            );
                            if check(ts, q2 + k, TokenType::RightBrace) {
                                ok(acc, u + k)
                            } else if k == 0 {
                                fail(error_at(ts, q2, "Expect ',' or '}' after match arm."@), u)
                            } else {
                                bump(arms_from(ts, q2 + 1, acc), u + 1)
                            }
                        },
                    }
                }
            },
        }
    } else {
        ok(acc, 0)
    }
}

// ---------------------------------------------------------------------------
// Programs and error recovery

/// Whether a token of kind `t` usually starts a statement or declaration.
pub open spec fn starts_statement(t: TokenType) -> bool {
    t == TokenType::Fn || t == TokenType::Let || t == TokenType::Struct || t == TokenType::Enum || t
        == TokenType::If || t == TokenType::While || t == TokenType::For || t == TokenType::Return || t
        == TokenType::Match || t == TokenType::LeftBrace || t == TokenType::RightBrace
}

/// The position where recovery stops, looking from `p` (which is past at least
/// one token): just after a `;`, at a token that starts a statement, or at the end.
pub open spec fn synchronize_from(ts: Seq<Token>, p: int) -> int
    decreases rem(ts, p),
{
    if at_end(ts, p) {
        p
    } else if ts[p - 1].token_type == TokenType::Semicolon {
        p
    } else if starts_statement(ts[p].token_type) {
        p
    } else {
        synchronize_from(ts, p + 1)
    }
}

/// Recovery after an error at `p`: skip that token, then skip to a statement boundary.
pub open spec fn synchronize(ts: Seq<Token>, p: int) -> int {
    if at_end(ts, p) {
        p
    } else {
        synchronize_from(ts, p + 1)
    }
}

/// What parsing a whole program gathers: the statements, the errors, and where it stopped.
pub struct ProgramOutcome {
    pub statements: Seq<SpecStmt>,
    pub errors: Seq<SpecParseError>,
    pub end: int,
}

/// Declarations from `p` to the end; after each error, recovery and on.
pub open spec fn program_from(ts: Seq<Token>, p: int, statements: Seq<SpecStmt>, errors: Seq<SpecParseError>) -> ProgramOutcome
    decreases rem(ts, p),
{
    if at_end(ts, p) {
        ProgramOutcome { statements, errors, end: p }
    } else {
        let d = declaration(ts, p);
        match d.result {
            Ok(s) => {
                // A declaration always takes at least one token.
                if d.used > 0 {
                    program_from(ts, p + d.used, statements.push(s), errors)
                } else {
                    ProgramOutcome { statements: statements.push(s), errors, end: p }
                }
            },
            Err(e) => {
                // Recovery always moves past `p`.
                let q = synchronize(ts, p + d.used);
                if q > p {
                    program_from(ts, q, statements, errors.push(e))
                } else {
                    ProgramOutcome { statements, errors: errors.push(e), end: q }
                }
            },
        }
    }
}

/// A whole program from `p`: its statements if no declaration failed, else
/// every error met, in order.
pub open spec fn program(ts: Seq<Token>, p: int) -> Result<Seq<SpecStmt>, Seq<SpecParseError>> {
    let o = program_from(ts, p, Seq::empty(), Seq::empty());
    if o.errors.len() == 0 {
        Ok(o.statements)
    } else {
        Err(o.errors)
    }
}

} // verus!

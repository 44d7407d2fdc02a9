//! Laws of the grammar: what each construct must give, stated over the tokens.

use vstd::prelude::*;
use crate::abstract_syntax_tree::model::{
    SpecComparison, SpecEquality, SpecFactor, SpecLogicalAnd, SpecLogicalOr, SpecMatchPattern, SpecPrimary, SpecStmt,
    SpecTerm, SpecTypeAnnotation, SpecUnary, SpecExpression, SpecAnnotationNode, SpecStructPatternField,
    SpecParameter, SpecFieldDecl, SpecVariantDecl, SpecElseIfBranch, SpecMatchArm, SpecStructLiteralField,
};
use crate::lexical::token::Token;
use crate::lexical::token_type::{LiteralValue, TokenType};
use crate::parser::grammar::{
    annotation_args_from, annotation_rest, annotations_from, arms_from, check_next, else_ifs_from, fail, fields_from,
    literal_fields_from, ok, parameters_from, path_rest, pattern_fields_from, pattern_list_from, statement,
    variant_fields, variants_from,
    at_end, block_from, check, comparison, declaration, equality, factor, logical_and, logical_or, pattern, postfix, primary,
    term, tuple_types_from, type_annotation, unary, SpecParseError, Parsed, rem, arguments_from, expression, bump,
};

verus! {

/// Both `-` and `+` join two factors into a term, with that token as the
/// operator; any other token after the first factor ends the term there.
#[verifier::spinoff_prover]
pub proof fn law_term_joins_factors_with_minus_and_plus(ts: Seq<Token>, p: int, structs: bool)
    requires
        factor(ts, p, structs).result is Ok,
    ensures
        ({
            let l = factor(ts, p, structs);
            let q = p + l.used;
            let r = factor(ts, q + 1, structs);
            if !at_end(ts, q) && (ts[q].token_type == TokenType::Minus || ts[q].token_type == TokenType::Plus) {
                r.result is Ok ==> term(ts, p, structs).result == Ok::<SpecTerm, SpecParseError>(
                    SpecTerm::Binary {
                        left: Box::new(l.result->Ok_0),
                        operator: ts[q],
                        right: Box::new(r.result->Ok_0),
                    },
                ) && term(ts, p, structs).used == l.used + 1 + r.used
            } else {
                term(ts, p, structs).result == Ok::<SpecTerm, SpecParseError>(SpecTerm::Next(Box::new(l.result->Ok_0)))
                    && term(ts, p, structs).used == l.used
            }
        }),
{
    reveal(term);
    reveal(factor);
}

/// A block never loses a statement: the statements gathered before come
/// first, unchanged, in what a block gives.
#[verifier::spinoff_prover]
pub proof fn law_block_keeps_earlier_statements(ts: Seq<Token>, p: int, acc: Seq<SpecStmt>)
    ensures
        block_from(ts, p, acc).result matches Ok(ss) ==> acc.len() <= ss.len() && ss.subrange(0, acc.len() as int)
            == acc,
    decreases crate::parser::grammar::rem(ts, p),
{
    reveal(block_from);
    reveal(declaration);
    if !check(ts, p, TokenType::RightBrace) && !at_end(ts, p) {
        let d = declaration(ts, p);
        if let Ok(s) = d.result {
            let acc2 = acc.push(s);
            if d.used > 0 {
                law_block_keeps_earlier_statements(ts, p + d.used, acc2);
                if let Ok(ss) = block_from(ts, p, acc).result {
                    assert(ss.subrange(0, acc.len() as int) =~= ss.subrange(0, acc2.len() as int).subrange(
                        0,
                        acc.len() as int,
                    ));
                    assert(acc2.subrange(0, acc.len() as int) =~= acc);
                }
            } else {
                assert(acc2.subrange(0, acc.len() as int) =~= acc);
            }
        }
    } else {
        assert(acc.subrange(0, acc.len() as int) =~= acc);
    }
}

/// Each declaration of a block becomes its statement: when a block that is not
/// closed yet starts with a declaration that parses, that declaration is the
/// next statement of the block, right after the earlier ones.
#[verifier::spinoff_prover]
pub proof fn law_block_adds_each_declaration(ts: Seq<Token>, p: int, acc: Seq<SpecStmt>)
    requires
        !check(ts, p, TokenType::RightBrace),
        !at_end(ts, p),
        declaration(ts, p).result is Ok,
    ensures
        block_from(ts, p, acc).result matches Ok(ss) ==> ss.len() > acc.len() && ss[acc.len() as int]
            == declaration(ts, p).result->Ok_0,
{
    reveal(block_from);
    reveal(declaration);
    let d = declaration(ts, p);
    let s = d.result->Ok_0;
    let acc2 = acc.push(s);
    if d.used > 0 {
        law_block_keeps_earlier_statements(ts, p + d.used, acc2);
        if let Ok(ss) = block_from(ts, p, acc).result {
            assert(ss[acc.len() as int] == ss.subrange(0, acc2.len() as int)[acc.len() as int]);
        }
    }
}

/// A tuple variant's type list never loses a type: the types gathered before
/// come first, unchanged.
pub proof fn law_tuple_types_keep_earlier(ts: Seq<Token>, p: int, acc: Seq<SpecTypeAnnotation>)
    ensures
        tuple_types_from(ts, p, acc).result matches Ok(tys) ==> acc.len() <= tys.len() && tys.subrange(
            0,
            acc.len() as int,
        ) == acc,
    decreases crate::parser::grammar::rem(ts, p),
{
    let t = type_annotation(ts, p);
    if let Ok(ty) = t.result {
        let acc2 = acc.push(ty);
        let q = p + t.used;
        assert(acc2.subrange(0, acc.len() as int) =~= acc);
        if check(ts, q, TokenType::Comma) && !check(ts, q + 1, TokenType::RightParen) {
            law_tuple_types_keep_earlier(ts, q + 1, acc2);
            if let Ok(tys) = tuple_types_from(ts, p, acc).result {
                assert(tys.subrange(0, acc.len() as int) =~= tys.subrange(0, acc2.len() as int).subrange(
                    0,
                    acc.len() as int,
                ));
            }
        }
    }
}

/// Each type written in a tuple variant is kept, in order: the type that
/// starts the list is the next one after those gathered before.
pub proof fn law_tuple_types_add_each_type(ts: Seq<Token>, p: int, acc: Seq<SpecTypeAnnotation>)
    requires
        type_annotation(ts, p).result is Ok,
    ensures
        tuple_types_from(ts, p, acc).result matches Ok(tys) ==> tys.len() > acc.len() && tys[acc.len() as int]
            == type_annotation(ts, p).result->Ok_0,
{
    let t = type_annotation(ts, p);
    let acc2 = acc.push(t.result->Ok_0);
    let q = p + t.used;
    if check(ts, q, TokenType::Comma) && !check(ts, q + 1, TokenType::RightParen) {
        law_tuple_types_keep_earlier(ts, q + 1, acc2);
        if let Ok(tys) = tuple_types_from(ts, p, acc).result {
            assert(tys[acc.len() as int] == tys.subrange(0, acc2.len() as int)[acc.len() as int]);
        }
    }
}

/// A pattern that is one literal token stands for that token's value: `false`
/// for `false`, `true` for `true`, `null` for `null`, and a number's or a
/// string's own value, each taking that one token.
pub proof fn law_literal_patterns(ts: Seq<Token>, p: int)
    ensures
        check(ts, p, TokenType::False) ==> pattern(ts, p).result == Ok::<SpecMatchPattern, SpecParseError>(
            SpecMatchPattern::Literal(LiteralValue::Boolean(false)),
        ) && pattern(ts, p).used == 1,
        check(ts, p, TokenType::True) ==> pattern(ts, p).result == Ok::<SpecMatchPattern, SpecParseError>(
            SpecMatchPattern::Literal(LiteralValue::Boolean(true)),
        ) && pattern(ts, p).used == 1,
        check(ts, p, TokenType::Null) ==> pattern(ts, p).result == Ok::<SpecMatchPattern, SpecParseError>(
            SpecMatchPattern::Literal(LiteralValue::Null),
        ) && pattern(ts, p).used == 1,
        (check(ts, p, TokenType::Number) || check(ts, p, TokenType::String)) && ts[p].literal is Some
            ==> pattern(ts, p).result == Ok::<SpecMatchPattern, SpecParseError>(SpecMatchPattern::Literal(ts[p].literal->0))
            && pattern(ts, p).used == 1,
{
}


/// `/` and `*` join two unary expressions into a factor, with that token as the operator; any other token after the first
/// operand ends the factor there.
#[verifier::spinoff_prover]
pub proof fn law_factor_joins_unaries_with_slash_and_star(ts: Seq<Token>, p: int, structs: bool)
    requires
        unary(ts, p, structs).result is Ok,
    ensures
        ({
            let l = unary(ts, p, structs);
            let q = p + l.used;
            let r = unary(ts, q + 1, structs);
            if !at_end(ts, q) && (ts[q].token_type == TokenType::Slash || ts[q].token_type == TokenType::Star) {
                r.result is Ok ==> factor(ts, p, structs).result == Ok::<SpecFactor, SpecParseError>(
                    SpecFactor::Binary {
                        left: Box::new(l.result->Ok_0),
                        operator: ts[q],
                        right: Box::new(r.result->Ok_0),
                    },
                ) && factor(ts, p, structs).used == l.used + 1 + r.used
            } else {
                factor(ts, p, structs).result == Ok::<SpecFactor, SpecParseError>(SpecFactor::Next(Box::new(l.result->Ok_0)))
                    && factor(ts, p, structs).used == l.used
            }
        }),
{
    reveal(factor);
    reveal(unary);
}

/// `>`, `>=`, `<` and `<=` join two terms into a comparison, with that token as the operator; any other token after the first
/// operand ends the comparison there.
#[verifier::spinoff_prover]
pub proof fn law_comparison_joins_terms(ts: Seq<Token>, p: int, structs: bool)
    requires
        term(ts, p, structs).result is Ok,
    ensures
        ({
            let l = term(ts, p, structs);
            let q = p + l.used;
            let r = term(ts, q + 1, structs);
            if !at_end(ts, q) && (ts[q].token_type == TokenType::Greater || ts[q].token_type == TokenType::GreaterEqual || ts[q].token_type == TokenType::Less || ts[q].token_type == TokenType::LessEqual) {
                r.result is Ok ==> comparison(ts, p, structs).result == Ok::<SpecComparison, SpecParseError>(
                    SpecComparison::Binary {
                        left: Box::new(l.result->Ok_0),
                        operator: ts[q],
                        right: Box::new(r.result->Ok_0),
                    },
                ) && comparison(ts, p, structs).used == l.used + 1 + r.used
            } else {
                comparison(ts, p, structs).result == Ok::<SpecComparison, SpecParseError>(SpecComparison::Next(Box::new(l.result->Ok_0)))
                    && comparison(ts, p, structs).used == l.used
            }
        }),
{
    reveal(comparison);
    reveal(term);
}

/// `!=` and `==` join two comparisons into an equality, with that token as the operator; any other token after the first
/// operand ends the equality there.
#[verifier::spinoff_prover]
pub proof fn law_equality_joins_comparisons(ts: Seq<Token>, p: int, structs: bool)
    requires
        comparison(ts, p, structs).result is Ok,
    ensures
        ({
            let l = comparison(ts, p, structs);
            let q = p + l.used;
            let r = comparison(ts, q + 1, structs);
            if !at_end(ts, q) && (ts[q].token_type == TokenType::BangEqual || ts[q].token_type == TokenType::EqualEqual) {
                r.result is Ok ==> equality(ts, p, structs).result == Ok::<SpecEquality, SpecParseError>(
                    SpecEquality::Binary {
                        left: Box::new(l.result->Ok_0),
                        operator: ts[q],
                        right: Box::new(r.result->Ok_0),
                    },
                ) && equality(ts, p, structs).used == l.used + 1 + r.used
            } else {
                equality(ts, p, structs).result == Ok::<SpecEquality, SpecParseError>(SpecEquality::Next(Box::new(l.result->Ok_0)))
                    && equality(ts, p, structs).used == l.used
            }
        }),
{
    reveal(equality);
    reveal(comparison);
}

/// `and` joins two equalities, with that token as the operator; any other token after the first
/// operand ends the logical-and expression there.
#[verifier::spinoff_prover]
pub proof fn law_and_joins_equalities(ts: Seq<Token>, p: int, structs: bool)
    requires
        equality(ts, p, structs).result is Ok,
    ensures
        ({
            let l = equality(ts, p, structs);
            let q = p + l.used;
            let r = equality(ts, q + 1, structs);
            if !at_end(ts, q) && (ts[q].token_type == TokenType::And) {
                r.result is Ok ==> logical_and(ts, p, structs).result == Ok::<SpecLogicalAnd, SpecParseError>(
                    SpecLogicalAnd::Binary {
                        left: Box::new(l.result->Ok_0),
                        operator: ts[q],
                        right: Box::new(r.result->Ok_0),
                    },
                ) && logical_and(ts, p, structs).used == l.used + 1 + r.used
            } else {
                logical_and(ts, p, structs).result == Ok::<SpecLogicalAnd, SpecParseError>(SpecLogicalAnd::Next(Box::new(l.result->Ok_0)))
                    && logical_and(ts, p, structs).used == l.used
            }
        }),
{
    reveal(logical_and);
    reveal(equality);
}

/// `or` joins two logical-and expressions, with that token as the operator; any other token after the first
/// operand ends the logical-or expression there.
#[verifier::spinoff_prover]
pub proof fn law_or_joins_and_expressions(ts: Seq<Token>, p: int, structs: bool)
    requires
        logical_and(ts, p, structs).result is Ok,
    ensures
        ({
            let l = logical_and(ts, p, structs);
            let q = p + l.used;
            let r = logical_and(ts, q + 1, structs);
            if !at_end(ts, q) && (ts[q].token_type == TokenType::Or) {
                r.result is Ok ==> logical_or(ts, p, structs).result == Ok::<SpecLogicalOr, SpecParseError>(
                    SpecLogicalOr::Binary {
                        left: Box::new(l.result->Ok_0),
                        operator: ts[q],
                        right: Box::new(r.result->Ok_0),
                    },
                ) && logical_or(ts, p, structs).used == l.used + 1 + r.used
            } else {
                logical_or(ts, p, structs).result == Ok::<SpecLogicalOr, SpecParseError>(SpecLogicalOr::Next(Box::new(l.result->Ok_0)))
                    && logical_or(ts, p, structs).used == l.used
            }
        }),
{
    reveal(logical_or);
    reveal(logical_and);
}

/// `!` and `-` in front of a unary expression make a prefixed expression with
/// that token as the operator; otherwise a unary expression is a postfix one.
#[verifier::spinoff_prover]
pub proof fn law_unary_prefixes(ts: Seq<Token>, p: int, structs: bool)
    ensures
        !at_end(ts, p) && (ts[p].token_type == TokenType::Bang || ts[p].token_type == TokenType::Minus)
            && unary(ts, p + 1, structs).result is Ok ==> unary(ts, p, structs).result == Ok::<SpecUnary, SpecParseError>(
            SpecUnary::Prefixed { operator: ts[p], operand: Box::new(unary(ts, p + 1, structs).result->Ok_0) },
        ) && unary(ts, p, structs).used == 1 + unary(ts, p + 1, structs).used,
        !(!at_end(ts, p) && (ts[p].token_type == TokenType::Bang || ts[p].token_type == TokenType::Minus))
            && postfix(ts, p, structs).result is Ok ==> unary(ts, p, structs).result == Ok::<SpecUnary, SpecParseError>(
            SpecUnary::Next(Box::new(postfix(ts, p, structs).result->Ok_0)),
        ) && unary(ts, p, structs).used == postfix(ts, p, structs).used,
{
    reveal(unary);
    reveal(postfix);
}

/// A primary expression that is one literal token stands for that token's
/// value: `false`, `true`, `null`, or a number's or a string's own value, each
/// taking that one token.
#[verifier::spinoff_prover]
pub proof fn law_literal_primaries(ts: Seq<Token>, p: int, structs: bool)
    ensures
        check(ts, p, TokenType::False) ==> primary(ts, p, structs).result == Ok::<SpecPrimary, SpecParseError>(
            SpecPrimary::Literal(LiteralValue::Boolean(false)),
        ) && primary(ts, p, structs).used == 1,
        check(ts, p, TokenType::True) ==> primary(ts, p, structs).result == Ok::<SpecPrimary, SpecParseError>(
            SpecPrimary::Literal(LiteralValue::Boolean(true)),
        ) && primary(ts, p, structs).used == 1,
        check(ts, p, TokenType::Null) ==> primary(ts, p, structs).result == Ok::<SpecPrimary, SpecParseError>(
            SpecPrimary::Literal(LiteralValue::Null),
        ) && primary(ts, p, structs).used == 1,
        (check(ts, p, TokenType::Number) || check(ts, p, TokenType::String)) && ts[p].literal is Some
            ==> primary(ts, p, structs).result == Ok::<SpecPrimary, SpecParseError>(
            SpecPrimary::Literal(ts[p].literal->0),
        ) && primary(ts, p, structs).used == 1,
{
    reveal(primary);
}

/// Whether a list step that started with `acc` kept it: on success the list
/// holds the items of `acc` first, unchanged and in order, and it gained an
/// item whenever the step took a token.
pub open spec fn builds_on<T>(r: Parsed<Seq<T>>, acc: Seq<T>) -> bool {
    r.result matches Ok(xs) ==> {
        &&& acc.len() <= xs.len()
        &&& forall|i: int| 0 <= i < acc.len() ==> #[trigger] xs[i] == acc[i]
        &&& r.used > 0 ==> acc.len() < xs.len()
    }
}

/// Call arguments keep every argument: each parsed argument is added after
/// the earlier ones, none is lost or replaced.
#[verifier::spinoff_prover]
pub proof fn law_arguments_keep_each(ts: Seq<Token>, p: int)
    ensures
        forall|acc: Seq<SpecExpression>| builds_on(#[trigger] arguments_from(ts, p, acc), acc),
    decreases rem(ts, p),
{
    reveal(arguments_from);
    reveal(expression);
    assert forall|acc: Seq<SpecExpression>| builds_on(#[trigger] arguments_from(ts, p, acc), acc) by {
        let x = expression(ts, p, true);
        if let Ok(v) = x.result {
            let q = p + x.used;
            let acc2 = acc.push(v);
            if check(ts, q, TokenType::Comma) && !check(ts, q + 1, TokenType::RightParen) {
                law_arguments_keep_each(ts, q + 1);
                assert(builds_on(arguments_from(ts, q + 1, acc2), acc2));
                assert(arguments_from(ts, p, acc) == bump(arguments_from(ts, q + 1, acc2), x.used + 1));
            }
        }
    }
}


/// A path keeps every segment: each identifier after `::` or `.` is added
/// after the earlier segments.
pub proof fn law_path_keeps_each_segment(ts: Seq<Token>, p: int)
    ensures
        forall|acc: Seq<Token>| builds_on(#[trigger] path_rest(ts, p, acc), acc),
    decreases rem(ts, p),
{
    assert forall|acc: Seq<Token>| builds_on(#[trigger] path_rest(ts, p, acc), acc) by {
        if (check(ts, p, TokenType::DoubleColon) || check(ts, p, TokenType::Dot)) && check(ts, p + 1, TokenType::Identifier) {
            let acc2 = acc.push(ts[p + 1]);
            law_path_keeps_each_segment(ts, p + 2);
            assert(builds_on(path_rest(ts, p + 2, acc2), acc2));
            assert(path_rest(ts, p, acc) == bump(path_rest(ts, p + 2, acc2), 2));
        }
    }
}

/// A run of annotations keeps every annotation, in order.
#[verifier::spinoff_prover]
pub proof fn law_annotations_keep_each(ts: Seq<Token>, p: int)
    ensures
        forall|acc: Seq<SpecAnnotationNode>| builds_on(#[trigger] annotations_from(ts, p, acc), acc),
    decreases rem(ts, p),
{
    reveal(annotations_from);
    reveal(annotation_rest);
    assert forall|acc: Seq<SpecAnnotationNode>| builds_on(#[trigger] annotations_from(ts, p, acc), acc) by {
        if check(ts, p, TokenType::At) {
            let r = annotation_rest(ts, ts[p], p + 1);
            if let Ok(a) = r.result {
                let acc2 = acc.push(a);
                law_annotations_keep_each(ts, p + 1 + r.used);
                assert(builds_on(annotations_from(ts, p + 1 + r.used, acc2), acc2));
                assert(annotations_from(ts, p, acc) == bump(annotations_from(ts, p + 1 + r.used, acc2), 1 + r.used));
            }
        }
    }
}

/// The arguments of an annotation keep every argument, in order.
#[verifier::spinoff_prover]
pub proof fn law_annotation_arguments_keep_each(ts: Seq<Token>, p: int)
    ensures
        forall|acc: Seq<SpecExpression>| builds_on(#[trigger] annotation_args_from(ts, p, acc), acc),
    decreases rem(ts, p),
{
    reveal(annotation_args_from);
    reveal(expression);
    assert forall|acc: Seq<SpecExpression>| builds_on(#[trigger] annotation_args_from(ts, p, acc), acc) by {
        if check(ts, p, TokenType::Comma) {
            let x = expression(ts, p + 1, true);
            if let Ok(v) = x.result {
                let acc2 = acc.push(v);
                law_annotation_arguments_keep_each(ts, p + 1 + x.used);
                assert(builds_on(annotation_args_from(ts, p + 1 + x.used, acc2), acc2));
                assert(annotation_args_from(ts, p, acc) == bump(annotation_args_from(ts, p + 1 + x.used, acc2), 1 + x.used));
            }
        }
    }
}

/// The fields of a struct pattern keep every field, in order.
pub proof fn law_pattern_fields_keep_each(ts: Seq<Token>, p: int)
    ensures
        forall|acc: Seq<SpecStructPatternField>| builds_on(#[trigger] pattern_fields_from(ts, p, acc), acc),
    decreases rem(ts, p),
{
    assert forall|acc: Seq<SpecStructPatternField>| builds_on(#[trigger] pattern_fields_from(ts, p, acc), acc) by {
        if check(ts, p, TokenType::Identifier) {
            let sub = if check(ts, p + 1, TokenType::Colon) {
                let r = pattern(ts, p + 2);
                match r.result {
                    Ok(pat) => ok(Some((ts[p + 1], Box::new(pat))), r.used + 1),
                    Err(e) => fail(e, r.used + 1),
                }
            } else {
                ok(None, 0)
            };
            if let Ok(cp) = sub.result {
                let q = p + 1 + sub.used;
                let acc2 = acc.push(SpecStructPatternField { field_name: ts[p], colon_and_pattern: cp });
                if check(ts, q, TokenType::Comma) && !check(ts, q + 1, TokenType::RightBrace) {
                    law_pattern_fields_keep_each(ts, q + 1);
                    assert(builds_on(pattern_fields_from(ts, q + 1, acc2), acc2));
                    assert(pattern_fields_from(ts, p, acc) == bump(pattern_fields_from(ts, q + 1, acc2), 1 + sub.used + 1));
                }
            }
        }
    }
}

/// The patterns of an enum variant pattern keep every pattern, in order.
pub proof fn law_pattern_list_keeps_each(ts: Seq<Token>, p: int)
    ensures
        forall|acc: Seq<SpecMatchPattern>| builds_on(#[trigger] pattern_list_from(ts, p, acc), acc),
    decreases rem(ts, p),
{
    assert forall|acc: Seq<SpecMatchPattern>| builds_on(#[trigger] pattern_list_from(ts, p, acc), acc) by {
        let r = pattern(ts, p);
        if let Ok(pat) = r.result {
            let q = p + r.used;
            let acc2 = acc.push(pat);
            if check(ts, q, TokenType::Comma) && !check(ts, q + 1, TokenType::RightParen) {
                law_pattern_list_keeps_each(ts, q + 1);
                assert(builds_on(pattern_list_from(ts, q + 1, acc2), acc2));
                assert(pattern_list_from(ts, p, acc) == bump(pattern_list_from(ts, q + 1, acc2), r.used + 1));
            }
        }
    }
}

/// A parameter list keeps every parameter, in order.
#[verifier::spinoff_prover]
pub proof fn law_parameters_keep_each(ts: Seq<Token>, p: int)
    ensures
        forall|acc: Seq<SpecParameter>| builds_on(#[trigger] parameters_from(ts, p, acc), acc),
    decreases rem(ts, p),
{
    reveal(parameters_from);
    reveal(annotations_from);
    assert forall|acc: Seq<SpecParameter>| builds_on(#[trigger] parameters_from(ts, p, acc), acc) by {
        let a = annotations_from(ts, p, Seq::empty());
        if let Ok(anns) = a.result {
            let q = p + a.used;
            if check(ts, q, TokenType::Identifier) {
                let ty = if check(ts, q + 1, TokenType::Colon) {
                    let t = type_annotation(ts, q + 2);
                    match t.result {
                        Ok(v) => ok((Some(ts[q + 1]), Some(v)), 1 + t.used),
                        Err(e) => fail(e, 1 + t.used),
                    }
                } else {
                    ok((None, None), 0)
                };
                if let Ok(colon_and_type) = ty.result {
                    let u = a.used + 1 + ty.used;
                    let q2 = p + u;
                    let acc2 = acc.push(
                        SpecParameter {
                            annotations: anns,
                            name: ts[q],
                            colon_token: colon_and_type.0,
                            type_ann: colon_and_type.1,
                        },
                    );
                    if check(ts, q2, TokenType::Comma) && !check(ts, q2 + 1, TokenType::RightParen) {
                        law_parameters_keep_each(ts, q2 + 1);
                        assert(builds_on(parameters_from(ts, q2 + 1, acc2), acc2));
                        assert(parameters_from(ts, p, acc) == bump(parameters_from(ts, q2 + 1, acc2), u + 1));
                    }
                }
            }
        }
    }
}

/// A field list keeps every field, in order.
#[verifier::spinoff_prover]
pub proof fn law_fields_keep_each(ts: Seq<Token>, p: int, name_message: Seq<char>, separator_message: Seq<char>)
    ensures
        forall|acc: Seq<SpecFieldDecl>| builds_on(#[trigger] fields_from(ts, p, acc, name_message, separator_message), acc),
    decreases rem(ts, p),
{
    reveal(fields_from);
    reveal(annotations_from);
    assert forall|acc: Seq<SpecFieldDecl>| builds_on(#[trigger] fields_from(ts, p, acc, name_message, separator_message), acc) by {
        if !check(ts, p, TokenType::RightBrace) && !at_end(ts, p) {
            let a = annotations_from(ts, p, Seq::empty());
            if let Ok(anns) = a.result {
                let q = p + a.used;
                if check(ts, q, TokenType::Identifier) && check(ts, q + 1, TokenType::Colon) {
                    let t = type_annotation(ts, q + 2);
                    if let Ok(ty) = t.result {
                        let u = a.used + 2 + t.used;
                        let q2 = p + u;
                        let acc2 = acc.push(SpecFieldDecl { annotations: anns, name: ts[q], colon_token: ts[q + 1], type_ann: ty });
                        if check(ts, q2, TokenType::Comma) && !check(ts, q2 + 1, TokenType::RightBrace) {
                            law_fields_keep_each(ts, q2 + 1, name_message, separator_message);
                            assert(builds_on(fields_from(ts, q2 + 1, acc2, name_message, separator_message), acc2));
                            assert(fields_from(ts, p, acc, name_message, separator_message) == bump(
                                fields_from(ts, q2 + 1, acc2, name_message, separator_message),
                                u + 1,
                            ));
                        }
                    }
                }
            }
        }
    }
}

/// An enum's variant list keeps every variant, in order.
#[verifier::spinoff_prover]
pub proof fn law_variants_keep_each(ts: Seq<Token>, p: int)
    ensures
        forall|acc: Seq<SpecVariantDecl>| builds_on(#[trigger] variants_from(ts, p, acc), acc),
    decreases rem(ts, p),
{
    reveal(variants_from);
    reveal(annotations_from);
    reveal(variant_fields);
    assert forall|acc: Seq<SpecVariantDecl>| builds_on(#[trigger] variants_from(ts, p, acc), acc) by {
        if !check(ts, p, TokenType::RightBrace) && !at_end(ts, p) {
            let a = annotations_from(ts, p, Seq::empty());
            if let Ok(anns) = a.result {
                let q = p + a.used;
                if check(ts, q, TokenType::Identifier) {
                    let vf = variant_fields(ts, q + 1);
                    if let Ok(fields) = vf.result {
                        let u = a.used + 1 + vf.used;
                        let q2 = p + u;
                        let acc2 = acc.push(SpecVariantDecl { annotations: anns, name: ts[q], fields });
                        if check(ts, q2, TokenType::Comma) && !check(ts, q2 + 1, TokenType::RightBrace) {
                            law_variants_keep_each(ts, q2 + 1);
                            assert(builds_on(variants_from(ts, q2 + 1, acc2), acc2));
                            assert(variants_from(ts, p, acc) == bump(variants_from(ts, q2 + 1, acc2), u + 1));
                        }
                    }
                }
            }
        }
    }
}

/// The `else if` branches of an `if` keep every branch, in order.
#[verifier::spinoff_prover]
pub proof fn law_else_ifs_keep_each(ts: Seq<Token>, p: int)
    ensures
        forall|acc: Seq<SpecElseIfBranch>| builds_on(#[trigger] else_ifs_from(ts, p, acc), acc),
    decreases rem(ts, p),
{
    reveal(else_ifs_from);
    reveal(expression);
    reveal(statement);
    assert forall|acc: Seq<SpecElseIfBranch>| builds_on(#[trigger] else_ifs_from(ts, p, acc), acc) by {
        if check(ts, p, TokenType::Else) && check_next(ts, p, TokenType::If) {
            let c = expression(ts, p + 2, false);
            if let Ok(condition) = c.result {
                let st = statement(ts, p + 2 + c.used);
                if let Ok(branch) = st.result {
                    let u = 2 + c.used + st.used;
                    let acc2 = acc.push(
                        SpecElseIfBranch {
                            else_token: ts[p],
                            if_token: ts[p + 1],
                            condition: Box::new(condition),
                            then_branch: Box::new(branch),
                        },
                    );
                    law_else_ifs_keep_each(ts, p + u);
                    assert(builds_on(else_ifs_from(ts, p + u, acc2), acc2));
                    assert(else_ifs_from(ts, p, acc) == bump(else_ifs_from(ts, p + u, acc2), u));
                }
            }
        }
    }
}

/// The arms of a match expression keep every arm, in order.
#[verifier::spinoff_prover]
pub proof fn law_arms_keep_each(ts: Seq<Token>, p: int)
    ensures
        forall|acc: Seq<SpecMatchArm>| builds_on(#[trigger] arms_from(ts, p, acc), acc),
    decreases rem(ts, p),
{
    reveal(arms_from);
    reveal(expression);
    assert forall|acc: Seq<SpecMatchArm>| builds_on(#[trigger] arms_from(ts, p, acc), acc) by {
        if !check(ts, p, TokenType::RightBrace) && !at_end(ts, p) {
            let pt = pattern(ts, p);
            if let Ok(pat) = pt.result {
                let q = p + pt.used;
                if check(ts, q, TokenType::FatArrow) {
                    let b = expression(ts, q + 1, true);
                    if let Ok(body) = b.result {
                        let u = pt.used + 1 + b.used;
                        let q2 = p + u;
                        let comma = if check(ts, q2, TokenType::Comma) { Some(ts[q2]) } else { None };
                        let k: nat = if check(ts, q2, TokenType::Comma) { 1 } else { 0 };
                        let acc2 = acc.push(
                            SpecMatchArm { pattern: pat, arrow_token: ts[q], body: Box::new(body), comma_token: comma },
                        );
                        if !check(ts, q2 + k, TokenType::RightBrace) && k != 0 {
                            law_arms_keep_each(ts, q2 + 1);
                            assert(builds_on(arms_from(ts, q2 + 1, acc2), acc2));
                            assert(arms_from(ts, p, acc) == bump(arms_from(ts, q2 + 1, acc2), u + 1));
                        }
                    }
                }
            }
        }
    }
}

/// The fields of a struct literal keep every field, in order.
#[verifier::spinoff_prover]
pub proof fn law_literal_fields_keep_each(ts: Seq<Token>, p: int)
    ensures
        forall|acc: Seq<SpecStructLiteralField>| builds_on(#[trigger] literal_fields_from(ts, p, acc), acc),
    decreases rem(ts, p),
{
    reveal(literal_fields_from);
    reveal(expression);
    assert forall|acc: Seq<SpecStructLiteralField>| builds_on(#[trigger] literal_fields_from(ts, p, acc), acc) by {
        if check(ts, p, TokenType::Identifier) && check(ts, p + 1, TokenType::Colon) {
            let x = expression(ts, p + 2, true);
            if let Ok(v) = x.result {
                let u = 2 + x.used;
                let q = p + u;
                let acc2 = acc.push(SpecStructLiteralField { name: ts[p], colon_token: ts[p + 1], value: Box::new(v) });
                if check(ts, q, TokenType::Comma) && !check(ts, q + 1, TokenType::RightBrace) {
                    law_literal_fields_keep_each(ts, q + 1);
                    assert(builds_on(literal_fields_from(ts, q + 1, acc2), acc2));
                    assert(literal_fields_from(ts, p, acc) == bump(literal_fields_from(ts, q + 1, acc2), u + 1));
                }
            }
        }
    }
}

/// A block keeps every statement, in order (see also the two block laws above).
#[verifier::spinoff_prover]
pub proof fn law_block_keeps_each(ts: Seq<Token>, p: int)
    ensures
        forall|acc: Seq<SpecStmt>| builds_on(#[trigger] block_from(ts, p, acc), acc),
    decreases rem(ts, p),
{
    reveal(block_from);
    reveal(declaration);
    assert forall|acc: Seq<SpecStmt>| builds_on(#[trigger] block_from(ts, p, acc), acc) by {
        if !check(ts, p, TokenType::RightBrace) && !at_end(ts, p) {
            let d = declaration(ts, p);
            if let Ok(s) = d.result {
                if d.used > 0 {
                    let acc2 = acc.push(s);
                    law_block_keeps_each(ts, p + d.used);
                    assert(builds_on(block_from(ts, p + d.used, acc2), acc2));
                    assert(block_from(ts, p, acc) == bump(block_from(ts, p + d.used, acc2), d.used));
                }
            }
        }
    }
}

/// A tuple variant's type list keeps every type, in order.
pub proof fn law_tuple_types_keep_each(ts: Seq<Token>, p: int)
    ensures
        forall|acc: Seq<SpecTypeAnnotation>| builds_on(#[trigger] tuple_types_from(ts, p, acc), acc),
    decreases rem(ts, p),
{
    assert forall|acc: Seq<SpecTypeAnnotation>| builds_on(#[trigger] tuple_types_from(ts, p, acc), acc) by {
        let t = type_annotation(ts, p);
        if let Ok(ty) = t.result {
            let q = p + t.used;
            let acc2 = acc.push(ty);
            if check(ts, q, TokenType::Comma) && !check(ts, q + 1, TokenType::RightParen) {
                law_tuple_types_keep_each(ts, q + 1);
                assert(builds_on(tuple_types_from(ts, q + 1, acc2), acc2));
                assert(tuple_types_from(ts, p, acc) == bump(tuple_types_from(ts, q + 1, acc2), t.used + 1));
            }
        }
    }
}
} // verus!

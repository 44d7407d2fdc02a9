//! Copies of syntax trees: every tree type can be cloned, and a copy has
//! the same view as the tree it was made from.

use vstd::prelude::*;
use vstd::std_specs::vec::axiom_vec_index_decreases;
use crate::abstract_syntax_tree::ast::{
    AnnotationNode, Comparison, ConditionalExpressionContent, ElseBranch, ElseIfBranch,
    EnumVariantPatternFields, Equality, Expression, Factor, FieldDecl, LogicalAnd, LogicalOr,
    MatchArm, MatchPattern, Parameter, PathExpression, Postfix, Primary, Stmt, StructLiteralField,
    StructPatternField, Term, TypeAnnotation, Unary, VariantDecl, VariantFields,
};
use crate::abstract_syntax_tree::model::{
    view_and, view_annotation, view_annotations, view_arm, view_arms, view_comparison, view_else,
    view_else_if, view_else_ifs, view_equality, view_expression, view_expressions, view_factor,
    view_field, view_fields, view_literal_fields, view_opt_expression, view_opt_type, view_or,
    view_parameter, view_parameters, view_path, view_pattern, view_pattern_field,
    view_pattern_fields, view_patterns, view_postfix, view_primary, view_stmt, view_stmts,
    view_term, view_type, view_types, view_unary, view_variant, view_variant_fields, view_variants,
};
use crate::lexical::token::Token;

verus! {

/// A copy of an optional token.
#[verifier::spinoff_prover]
fn clone_opt_token(o: &Option<Token>) -> (r: Option<Token>)
    ensures
        r == *o,
{
    match o {
        Some(t) => Some(t.clone()),
        None => None,
    }
}

/// A copy of a list of tokens.
#[verifier::spinoff_prover]
fn clone_tokens(v: &Vec<Token>) -> (r: Vec<Token>)
    ensures
        r@ == v@,
{
    let mut out: Vec<Token> = Vec::new();
    let mut i: usize = 0;
    while i < v.len()
        invariant
            i <= v.len(),
            out@ == v@.take(i as int),
        decreases v.len() - i,
    {
        out.push(v[i].clone());
        i = i + 1;
        assert(out@ =~= v@.take(i as int));
    }
    assert(v@.take(v.len() as int) =~= v@);
    out
}

/// A copy of each item of `v`, in order, each with the same view.
#[verifier::spinoff_prover]
fn clone_expressions(v: &Vec<Expression>) -> (r: Vec<Expression>)
    ensures
        r.len() == v.len(),
        forall|j: int| #![trigger r@[j]] 0 <= j < v.len() ==> r@[j]@ == v@[j]@,
        view_expressions(r) == view_expressions(*v),
    decreases v, 1nat,
{
    proof {
        reveal(view_expressions);
        reveal(view_expression);
    }
    let mut out: Vec<Expression> = Vec::new();
    let mut i: usize = 0;
    while i < v.len()
        invariant
            i <= v.len(),
            out.len() == i,
            forall|j: int| #![trigger out@[j]] 0 <= j < i ==> out@[j]@ == v@[j]@,
        decreases v.len() - i,
    {
        proof {
            axiom_vec_index_decreases(*v, i as int);
        }
        out.push(v[i].clone());
        i = i + 1;
    }
    assert(view_expressions(out) =~= view_expressions(*v));
    out
}

/// A copy of each item of `v`, in order, each with the same view.
#[verifier::spinoff_prover]
fn clone_annotations(v: &Vec<AnnotationNode>) -> (r: Vec<AnnotationNode>)
    ensures
        r.len() == v.len(),
        forall|j: int| #![trigger r@[j]] 0 <= j < v.len() ==> r@[j]@ == v@[j]@,
        view_annotations(r) == view_annotations(*v),
    decreases v, 1nat,
{
    proof {
        reveal(view_annotations);
        reveal(view_annotation);
    }
    let mut out: Vec<AnnotationNode> = Vec::new();
    let mut i: usize = 0;
    while i < v.len()
        invariant
            i <= v.len(),
            out.len() == i,
            forall|j: int| #![trigger out@[j]] 0 <= j < i ==> out@[j]@ == v@[j]@,
        decreases v.len() - i,
    {
        proof {
            axiom_vec_index_decreases(*v, i as int);
        }
        out.push(v[i].clone());
        i = i + 1;
    }
    assert(view_annotations(out) =~= view_annotations(*v));
    out
}

/// A copy of each item of `v`, in order, each with the same view.
#[verifier::spinoff_prover]
fn clone_parameters(v: &Vec<Parameter>) -> (r: Vec<Parameter>)
    ensures
        r.len() == v.len(),
        forall|j: int| #![trigger r@[j]] 0 <= j < v.len() ==> r@[j]@ == v@[j]@,
        view_parameters(r) == view_parameters(*v),
    decreases v, 1nat,
{
    proof {
        reveal(view_parameters);
        reveal(view_parameter);
    }
    let mut out: Vec<Parameter> = Vec::new();
    let mut i: usize = 0;
    while i < v.len()
        invariant
            i <= v.len(),
            out.len() == i,
            forall|j: int| #![trigger out@[j]] 0 <= j < i ==> out@[j]@ == v@[j]@,
        decreases v.len() - i,
    {
        proof {
            axiom_vec_index_decreases(*v, i as int);
        }
        out.push(v[i].clone());
        i = i + 1;
    }
    assert(view_parameters(out) =~= view_parameters(*v));
    out
}

/// A copy of each item of `v`, in order, each with the same view.
#[verifier::spinoff_prover]
fn clone_fields(v: &Vec<FieldDecl>) -> (r: Vec<FieldDecl>)
    ensures
        r.len() == v.len(),
        forall|j: int| #![trigger r@[j]] 0 <= j < v.len() ==> r@[j]@ == v@[j]@,
        view_fields(r) == view_fields(*v),
    decreases v, 1nat,
{
    proof {
        reveal(view_fields);
        reveal(view_field);
    }
    let mut out: Vec<FieldDecl> = Vec::new();
    let mut i: usize = 0;
    while i < v.len()
        invariant
            i <= v.len(),
            out.len() == i,
            forall|j: int| #![trigger out@[j]] 0 <= j < i ==> out@[j]@ == v@[j]@,
        decreases v.len() - i,
    {
        proof {
            axiom_vec_index_decreases(*v, i as int);
        }
        out.push(v[i].clone());
        i = i + 1;
    }
    assert(view_fields(out) =~= view_fields(*v));
    out
}

/// A copy of each item of `v`, in order, each with the same view.
#[verifier::spinoff_prover]
fn clone_types(v: &Vec<TypeAnnotation>) -> (r: Vec<TypeAnnotation>)
    ensures
        r.len() == v.len(),
        forall|j: int| #![trigger r@[j]] 0 <= j < v.len() ==> r@[j]@ == v@[j]@,
        view_types(r) == view_types(*v),
    decreases v, 1nat,
{
    proof {
        reveal(view_types);
        reveal(view_type);
    }
    let mut out: Vec<TypeAnnotation> = Vec::new();
    let mut i: usize = 0;
    while i < v.len()
        invariant
            i <= v.len(),
            out.len() == i,
            forall|j: int| #![trigger out@[j]] 0 <= j < i ==> out@[j]@ == v@[j]@,
        decreases v.len() - i,
    {
        proof {
            axiom_vec_index_decreases(*v, i as int);
        }
        out.push(v[i].clone());
        i = i + 1;
    }
    assert(view_types(out) =~= view_types(*v));
    out
}

/// A copy of each item of `v`, in order, each with the same view.
#[verifier::spinoff_prover]
fn clone_variants(v: &Vec<VariantDecl>) -> (r: Vec<VariantDecl>)
    ensures
        r.len() == v.len(),
        forall|j: int| #![trigger r@[j]] 0 <= j < v.len() ==> r@[j]@ == v@[j]@,
        view_variants(r) == view_variants(*v),
    decreases v, 1nat,
{
    proof {
        reveal(view_variants);
        reveal(view_variant);
    }
    let mut out: Vec<VariantDecl> = Vec::new();
    let mut i: usize = 0;
    while i < v.len()
        invariant
            i <= v.len(),
            out.len() == i,
            forall|j: int| #![trigger out@[j]] 0 <= j < i ==> out@[j]@ == v@[j]@,
        decreases v.len() - i,
    {
        proof {
            axiom_vec_index_decreases(*v, i as int);
        }
        out.push(v[i].clone());
        i = i + 1;
    }
    assert(view_variants(out) =~= view_variants(*v));
    out
}

/// A copy of each item of `v`, in order, each with the same view.
#[verifier::spinoff_prover]
fn clone_else_ifs(v: &Vec<ElseIfBranch>) -> (r: Vec<ElseIfBranch>)
    ensures
        r.len() == v.len(),
        forall|j: int| #![trigger r@[j]] 0 <= j < v.len() ==> r@[j]@ == v@[j]@,
        view_else_ifs(r) == view_else_ifs(*v),
    decreases v, 1nat,
{
    proof {
        reveal(view_else_ifs);
        reveal(view_else_if);
    }
    let mut out: Vec<ElseIfBranch> = Vec::new();
    let mut i: usize = 0;
    while i < v.len()
        invariant
            i <= v.len(),
            out.len() == i,
            forall|j: int| #![trigger out@[j]] 0 <= j < i ==> out@[j]@ == v@[j]@,
        decreases v.len() - i,
    {
        proof {
            axiom_vec_index_decreases(*v, i as int);
        }
        out.push(v[i].clone());
        i = i + 1;
    }
    assert(view_else_ifs(out) =~= view_else_ifs(*v));
    out
}

/// A copy of each item of `v`, in order, each with the same view.
#[verifier::spinoff_prover]
fn clone_stmts(v: &Vec<Stmt>) -> (r: Vec<Stmt>)
    ensures
        r.len() == v.len(),
        forall|j: int| #![trigger r@[j]] 0 <= j < v.len() ==> r@[j]@ == v@[j]@,
        view_stmts(r) == view_stmts(*v),
    decreases v, 1nat,
{
    proof {
        reveal(view_stmts);
        reveal(view_stmt);
    }
    let mut out: Vec<Stmt> = Vec::new();
    let mut i: usize = 0;
    while i < v.len()
        invariant
            i <= v.len(),
            out.len() == i,
            forall|j: int| #![trigger out@[j]] 0 <= j < i ==> out@[j]@ == v@[j]@,
        decreases v.len() - i,
    {
        proof {
            axiom_vec_index_decreases(*v, i as int);
        }
        out.push(v[i].clone());
        i = i + 1;
    }
    assert(view_stmts(out) =~= view_stmts(*v));
    out
}

/// A copy of each item of `v`, in order, each with the same view.
#[verifier::spinoff_prover]
fn clone_arms(v: &Vec<MatchArm>) -> (r: Vec<MatchArm>)
    ensures
        r.len() == v.len(),
        forall|j: int| #![trigger r@[j]] 0 <= j < v.len() ==> r@[j]@ == v@[j]@,
        view_arms(r) == view_arms(*v),
    decreases v, 1nat,
{
    proof {
        reveal(view_arms);
        reveal(view_arm);
    }
    let mut out: Vec<MatchArm> = Vec::new();
    let mut i: usize = 0;
    while i < v.len()
        invariant
            i <= v.len(),
            out.len() == i,
            forall|j: int| #![trigger out@[j]] 0 <= j < i ==> out@[j]@ == v@[j]@,
        decreases v.len() - i,
    {
        proof {
            axiom_vec_index_decreases(*v, i as int);
        }
        out.push(v[i].clone());
        i = i + 1;
    }
    assert(view_arms(out) =~= view_arms(*v));
    out
}

/// A copy of each item of `v`, in order, each with the same view.
#[verifier::spinoff_prover]
fn clone_patterns(v: &Vec<MatchPattern>) -> (r: Vec<MatchPattern>)
    ensures
        r.len() == v.len(),
        forall|j: int| #![trigger r@[j]] 0 <= j < v.len() ==> r@[j]@ == v@[j]@,
        view_patterns(r) == view_patterns(*v),
    decreases v, 1nat,
{
    proof {
        reveal(view_patterns);
        reveal(view_pattern);
    }
    let mut out: Vec<MatchPattern> = Vec::new();
    let mut i: usize = 0;
    while i < v.len()
        invariant
            i <= v.len(),
            out.len() == i,
            forall|j: int| #![trigger out@[j]] 0 <= j < i ==> out@[j]@ == v@[j]@,
        decreases v.len() - i,
    {
        proof {
            axiom_vec_index_decreases(*v, i as int);
        }
        out.push(v[i].clone());
        i = i + 1;
    }
    assert(view_patterns(out) =~= view_patterns(*v));
    out
}

/// A copy of each item of `v`, in order, each with the same view.
#[verifier::spinoff_prover]
fn clone_pattern_fields(v: &Vec<StructPatternField>) -> (r: Vec<StructPatternField>)
    ensures
        r.len() == v.len(),
        forall|j: int| #![trigger r@[j]] 0 <= j < v.len() ==> r@[j]@ == v@[j]@,
        view_pattern_fields(r) == view_pattern_fields(*v),
    decreases v, 1nat,
{
    proof {
        reveal(view_pattern_fields);
        reveal(view_pattern_field);
    }
    let mut out: Vec<StructPatternField> = Vec::new();
    let mut i: usize = 0;
    while i < v.len()
        invariant
            i <= v.len(),
            out.len() == i,
            forall|j: int| #![trigger out@[j]] 0 <= j < i ==> out@[j]@ == v@[j]@,
        decreases v.len() - i,
    {
        proof {
            axiom_vec_index_decreases(*v, i as int);
        }
        out.push(v[i].clone());
        i = i + 1;
    }
    assert(view_pattern_fields(out) =~= view_pattern_fields(*v));
    out
}

/// A copy of each item of `v`, in order, each with the same view.
#[verifier::spinoff_prover]
fn clone_literal_fields(v: &Vec<StructLiteralField>) -> (r: Vec<StructLiteralField>)
    ensures
        r.len() == v.len(),
        forall|j: int| #![trigger r@[j]] 0 <= j < v.len() ==> r@[j]@ == v@[j]@,
        view_literal_fields(r) == view_literal_fields(*v),
    decreases v, 1nat,
{
    proof {
        reveal(view_literal_fields);
        reveal(view_expression);
    }
    let mut out: Vec<StructLiteralField> = Vec::new();
    let mut i: usize = 0;
    while i < v.len()
        invariant
            i <= v.len(),
            out.len() == i,
            forall|j: int| #![trigger out@[j]] 0 <= j < i ==> out@[j]@ == v@[j]@,
        decreases v.len() - i,
    {
        proof {
            axiom_vec_index_decreases(*v, i as int);
        }
        out.push(v[i].clone());
        i = i + 1;
    }
    assert(view_literal_fields(out) =~= view_literal_fields(*v));
    out
}

impl Clone for PathExpression {
    /// A copy with the same view.
    #[verifier::spinoff_prover]
    fn clone(&self) -> (r: Self)
        ensures
            r@ == self@,
    {
        proof {
            reveal(view_path);
        }
        PathExpression { segments: clone_tokens(&self.segments) }
    }
}

impl Clone for TypeAnnotation {
    /// A copy with the same view.
    #[verifier::spinoff_prover]
    fn clone(&self) -> (r: Self)
        ensures
            r@ == self@,
    {
        proof {
            reveal(view_type);
            reveal(view_path);
        }
        TypeAnnotation { name: self.name.clone(), is_optional: self.is_optional }
    }
}

impl Clone for AnnotationNode {
    /// A copy with the same view.
    #[verifier::spinoff_prover]
    fn clone(&self) -> (r: Self)
        ensures
            r@ == self@,
        decreases self, 1nat,
    {
        proof {
            reveal(view_annotation);
            reveal(view_expression);
            reveal(view_path);
        }
        let arguments = match &self.arguments {
            Some(v) => Some(clone_expressions(v)),
            None => None,
        };
        let r = AnnotationNode { at_token: self.at_token.clone(), name: self.name.clone(), arguments };
        if r.arguments.is_some() {
            assert(view_annotation(r).arguments->0 =~= view_annotation(*self).arguments->0);
        }
        r
    }
}

impl Clone for Parameter {
    /// A copy with the same view.
    #[verifier::spinoff_prover]
    fn clone(&self) -> (r: Self)
        ensures
            r@ == self@,
        decreases self, 1nat,
    {
        proof {
            reveal(view_parameter);
            reveal(view_annotations);
            reveal(view_opt_type);
            reveal(view_annotation);
            reveal(view_type);
        }
        let annotations = clone_annotations(&self.annotations);
        let type_ann = match &self.type_ann {
            Some(t) => Some(t.clone()),
            None => None,
        };
        Parameter { annotations, name: self.name.clone(), colon_token: clone_opt_token(&self.colon_token), type_ann }
    }
}

impl Clone for FieldDecl {
    /// A copy with the same view.
    #[verifier::spinoff_prover]
    fn clone(&self) -> (r: Self)
        ensures
            r@ == self@,
        decreases self, 1nat,
    {
        proof {
            reveal(view_field);
            reveal(view_annotations);
            reveal(view_type);
            reveal(view_annotation);
        }
        let annotations = clone_annotations(&self.annotations);
        FieldDecl {
            annotations,
            name: self.name.clone(),
            colon_token: self.colon_token.clone(),
            type_ann: self.type_ann.clone(),
        }
    }
}

impl Clone for VariantFields {
    /// A copy with the same view.
    #[verifier::spinoff_prover]
    fn clone(&self) -> (r: Self)
        ensures
            r@ == self@,
        decreases self, 1nat,
    {
        proof {
            reveal(view_variant_fields);
            reveal(view_fields);
            reveal(view_types);
            reveal(view_field);
            reveal(view_type);
        }
        match self {
            VariantFields::Tuple(l, ts, r) => {
                let copied = clone_types(ts);
                VariantFields::Tuple(l.clone(), copied, r.clone())
            },
            VariantFields::Struct(l, fs, r) => {
                let copied = clone_fields(fs);
                VariantFields::Struct(l.clone(), copied, r.clone())
            },
        }
    }
}

impl Clone for VariantDecl {
    /// A copy with the same view.
    #[verifier::spinoff_prover]
    fn clone(&self) -> (r: Self)
        ensures
            r@ == self@,
        decreases self, 1nat,
    {
        proof {
            reveal(view_variant);
            reveal(view_annotations);
            reveal(view_variant_fields);
            reveal(view_annotation);
        }
        let annotations = clone_annotations(&self.annotations);
        let fields = match &self.fields {
            Some(f) => Some(f.clone()),
            None => None,
        };
        VariantDecl { annotations, name: self.name.clone(), fields }
    }
}

impl Clone for ElseIfBranch {
    /// A copy with the same view.
    #[verifier::spinoff_prover]
    fn clone(&self) -> (r: Self)
        ensures
            r@ == self@,
        decreases self, 1nat,
    {
        proof {
            reveal(view_else_if);
            reveal(view_expression);
            reveal(view_stmt);
        }
        ElseIfBranch {
            else_token: self.else_token.clone(),
            if_token: self.if_token.clone(),
            condition: Box::new((*self.condition).clone()),
            then_branch: Box::new((*self.then_branch).clone()),
        }
    }
}

impl Clone for ElseBranch {
    /// A copy with the same view.
    #[verifier::spinoff_prover]
    fn clone(&self) -> (r: Self)
        ensures
            r@ == self@,
        decreases self, 1nat,
    {
        proof {
            reveal(view_stmt);
        }
        ElseBranch { else_token: self.else_token.clone(), branch: Box::new((*self.branch).clone()) }
    }
}

impl Clone for ConditionalExpressionContent {
    /// A copy with the same view.
    #[verifier::spinoff_prover]
    fn clone(&self) -> (r: Self)
        ensures
            r@ == self@,
        decreases self, 1nat,
    {
        proof {
            reveal(view_or);
            reveal(view_expression);
        }
        ConditionalExpressionContent {
            condition_expr: Box::new((*self.condition_expr).clone()),
            question_token: self.question_token.clone(),
            then_expr: Box::new((*self.then_expr).clone()),
            colon_token: self.colon_token.clone(),
            else_expr: Box::new((*self.else_expr).clone()),
        }
    }
}

impl Clone for Expression {
    /// A copy with the same view.
    #[verifier::spinoff_prover]
    fn clone(&self) -> (r: Self)
        ensures
            r@ == self@,
        decreases self, 1nat,
    {
        proof {
            reveal(view_expression);
            reveal(view_or);
            reveal(view_postfix);
        }
        match self {
            Expression::Assign { target, equals_token, value } => Expression::Assign {
                target: Box::new((**target).clone()),
                equals_token: equals_token.clone(),
                value: Box::new((**value).clone()),
            },
            Expression::Conditional(c) => Expression::Conditional(Box::new((**c).clone())),
            Expression::LogicalOr(o) => Expression::LogicalOr(Box::new((**o).clone())),
        }
    }
}

impl Clone for LogicalOr {
    /// A copy with the same view.
    #[verifier::spinoff_prover]
    fn clone(&self) -> (r: Self)
        ensures
            r@ == self@,
        decreases self, 1nat,
    {
        proof {
            reveal(view_or);
            reveal(view_and);
        }
        match self {
            LogicalOr::Binary { left, operator, right } => LogicalOr::Binary {
                left: Box::new((**left).clone()),
                operator: operator.clone(),
                right: Box::new((**right).clone()),
            },
            LogicalOr::Next(n) => LogicalOr::Next(Box::new((**n).clone())),
        }
    }
}

impl Clone for LogicalAnd {
    /// A copy with the same view.
    #[verifier::spinoff_prover]
    fn clone(&self) -> (r: Self)
        ensures
            r@ == self@,
        decreases self, 1nat,
    {
        proof {
            reveal(view_and);
            reveal(view_equality);
        }
        match self {
            LogicalAnd::Binary { left, operator, right } => LogicalAnd::Binary {
                left: Box::new((**left).clone()),
                operator: operator.clone(),
                right: Box::new((**right).clone()),
            },
            LogicalAnd::Next(n) => LogicalAnd::Next(Box::new((**n).clone())),
        }
    }
}

impl Clone for Equality {
    /// A copy with the same view.
    #[verifier::spinoff_prover]
    fn clone(&self) -> (r: Self)
        ensures
            r@ == self@,
        decreases self, 1nat,
    {
        proof {
            reveal(view_equality);
            reveal(view_comparison);
        }
        match self {
            Equality::Binary { left, operator, right } => Equality::Binary {
                left: Box::new((**left).clone()),
                operator: operator.clone(),
                right: Box::new((**right).clone()),
            },
            Equality::Next(n) => Equality::Next(Box::new((**n).clone())),
        }
    }
}

impl Clone for Comparison {
    /// A copy with the same view.
    #[verifier::spinoff_prover]
    fn clone(&self) -> (r: Self)
        ensures
            r@ == self@,
        decreases self, 1nat,
    {
        proof {
            reveal(view_comparison);
            reveal(view_term);
        }
        match self {
            Comparison::Binary { left, operator, right } => Comparison::Binary {
                left: Box::new((**left).clone()),
                operator: operator.clone(),
                right: Box::new((**right).clone()),
            },
            Comparison::Next(n) => Comparison::Next(Box::new((**n).clone())),
        }
    }
}

impl Clone for Term {
    /// A copy with the same view.
    #[verifier::spinoff_prover]
    fn clone(&self) -> (r: Self)
        ensures
            r@ == self@,
        decreases self, 1nat,
    {
        proof {
            reveal(view_term);
            reveal(view_factor);
        }
        match self {
            Term::Binary { left, operator, right } => Term::Binary {
                left: Box::new((**left).clone()),
                operator: operator.clone(),
                right: Box::new((**right).clone()),
            },
            Term::Next(n) => Term::Next(Box::new((**n).clone())),
        }
    }
}

impl Clone for Factor {
    /// A copy with the same view.
    #[verifier::spinoff_prover]
    fn clone(&self) -> (r: Self)
        ensures
            r@ == self@,
        decreases self, 1nat,
    {
        proof {
            reveal(view_factor);
            reveal(view_unary);
        }
        match self {
            Factor::Binary { left, operator, right } => Factor::Binary {
                left: Box::new((**left).clone()),
                operator: operator.clone(),
                right: Box::new((**right).clone()),
            },
            Factor::Next(n) => Factor::Next(Box::new((**n).clone())),
        }
    }
}

impl Clone for Unary {
    /// A copy with the same view.
    #[verifier::spinoff_prover]
    fn clone(&self) -> (r: Self)
        ensures
            r@ == self@,
        decreases self, 1nat,
    {
        proof {
            reveal(view_unary);
            reveal(view_postfix);
        }
        match self {
            Unary::Prefixed { operator, operand } => Unary::Prefixed {
                operator: operator.clone(),
                operand: Box::new((**operand).clone()),
            },
            Unary::Next(n) => Unary::Next(Box::new((**n).clone())),
        }
    }
}

impl Clone for Postfix {
    /// A copy with the same view.
    #[verifier::spinoff_prover]
    fn clone(&self) -> (r: Self)
        ensures
            r@ == self@,
        decreases self, 1nat,
    {
        proof {
            reveal(view_postfix);
            reveal(view_expressions);
            reveal(view_primary);
            reveal(view_expression);
        }
        match self {
            Postfix::FunctionCall { callee, left_paren, arguments, right_paren } => {
                let copied = clone_expressions(arguments);
                Postfix::FunctionCall {
                    callee: Box::new((**callee).clone()),
                    left_paren: left_paren.clone(),
                    arguments: copied,
                    right_paren: right_paren.clone(),
                }
            },
            Postfix::PropertyGet { object, dot_token, optional_chain_token, name } => Postfix::PropertyGet {
                object: Box::new((**object).clone()),
                dot_token: dot_token.clone(),
                optional_chain_token: clone_opt_token(optional_chain_token),
                name: name.clone(),
            },
            Postfix::Item(p) => Postfix::Item(Box::new((**p).clone())),
        }
    }
}

impl Clone for MatchArm {
    /// A copy with the same view.
    #[verifier::spinoff_prover]
    fn clone(&self) -> (r: Self)
        ensures
            r@ == self@,
        decreases self, 1nat,
    {
        proof {
            reveal(view_arm);
            reveal(view_expression);
            reveal(view_pattern);
        }
        MatchArm {
            pattern: self.pattern.clone(),
            arrow_token: self.arrow_token.clone(),
            body: Box::new((*self.body).clone()),
            comma_token: clone_opt_token(&self.comma_token),
        }
    }
}

impl Clone for MatchPattern {
    /// A copy with the same view.
    #[verifier::spinoff_prover]
    fn clone(&self) -> (r: Self)
        ensures
            r@ == self@,
        decreases self, 1nat,
    {
        proof {
            reveal(view_pattern);
            reveal(view_path);
            reveal(view_pattern_fields);
            reveal(view_patterns);
            reveal(view_pattern_field);
        }
        match self {
            MatchPattern::Literal(l) => MatchPattern::Literal(l.clone()),
            MatchPattern::Identifier(t) => MatchPattern::Identifier(t.clone()),
            MatchPattern::StructPattern { name, left_brace, fields, right_brace } => {
                let copied = clone_pattern_fields(fields);
                MatchPattern::StructPattern {
                    name: name.clone(),
                    left_brace: left_brace.clone(),
                    fields: copied,
                    right_brace: right_brace.clone(),
                }
            },
            MatchPattern::EnumVariantPattern { path, fields } => {
                let copied = match fields {
                    Some(f) => Some(f.clone()),
                    None => None,
                };
                MatchPattern::EnumVariantPattern { path: path.clone(), fields: copied }
            },
        }
    }
}

impl Clone for StructPatternField {
    /// A copy with the same view.
    #[verifier::spinoff_prover]
    fn clone(&self) -> (r: Self)
        ensures
            r@ == self@,
        decreases self, 1nat,
    {
        proof {
            reveal(view_pattern_field);
            reveal(view_pattern);
        }
        let colon_and_pattern = match &self.colon_and_pattern {
            Some((c, p)) => Some((c.clone(), Box::new((**p).clone()))),
            None => None,
        };
        StructPatternField { field_name: self.field_name.clone(), colon_and_pattern }
    }
}

impl Clone for EnumVariantPatternFields {
    /// A copy with the same view.
    #[verifier::spinoff_prover]
    fn clone(&self) -> (r: Self)
        ensures
            r@ == self@,
        decreases self, 1nat,
    {
        proof {
            reveal(view_patterns);
            reveal(view_pattern_fields);
            reveal(view_pattern);
            reveal(view_pattern_field);
        }
        match self {
            EnumVariantPatternFields::Tuple(l, ps, r) => {
                let copied = clone_patterns(ps);
                EnumVariantPatternFields::Tuple(l.clone(), copied, r.clone())
            },
            EnumVariantPatternFields::Struct(l, fs, r) => {
                let copied = clone_pattern_fields(fs);
                EnumVariantPatternFields::Struct(l.clone(), copied, r.clone())
            },
        }
    }
}

impl Clone for StructLiteralField {
    /// A copy with the same view.
    #[verifier::spinoff_prover]
    fn clone(&self) -> (r: Self)
        ensures
            r@ == self@,
        decreases self, 1nat,
    {
        proof {
            reveal(view_expression);
        }
        StructLiteralField {
            name: self.name.clone(),
            colon_token: self.colon_token.clone(),
            value: Box::new((*self.value).clone()),
        }
    }
}

impl Clone for Primary {
    /// A copy with the same view.
    #[verifier::spinoff_prover]
    fn clone(&self) -> (r: Self)
        ensures
            r@ == self@,
        decreases self, 1nat,
    {
        proof {
            reveal(view_primary);
            reveal(view_arms);
            reveal(view_expression);
            reveal(view_literal_fields);
            reveal(view_opt_type);
            reveal(view_parameters);
            reveal(view_path);
            reveal(view_arm);
            reveal(view_type);
            reveal(view_parameter);
        }
        match self {
            Primary::Literal(l) => Primary::Literal(l.clone()),
            Primary::Identifier(t) => Primary::Identifier(t.clone()),
            Primary::Grouping { left_paren, expression, right_paren } => Primary::Grouping {
                left_paren: left_paren.clone(),
                expression: Box::new((**expression).clone()),
                right_paren: right_paren.clone(),
            },
            Primary::StructLiteral { name, left_brace, fields, right_brace } => {
                let copied = clone_literal_fields(fields);
                Primary::StructLiteral {
                    name: name.clone(),
                    left_brace: left_brace.clone(),
                    fields: copied,
                    right_brace: right_brace.clone(),
                }
            },
            Primary::EnumPath(p) => Primary::EnumPath(p.clone()),
            Primary::MatchExpr { match_token, expression, left_brace, arms, right_brace } => {
                let copied = clone_arms(arms);
                Primary::MatchExpr {
                    match_token: match_token.clone(),
                    expression: Box::new((**expression).clone()),
                    left_brace: left_brace.clone(),
                    arms: copied,
                    right_brace: right_brace.clone(),
                }
            },
            Primary::Lambda { fn_token, params, return_type_arrow, return_type, body_expr } => {
                let copied = clone_parameters(params);
                let return_type = match return_type {
                    Some(t) => Some(t.clone()),
                    None => None,
                };
                Primary::Lambda {
                    fn_token: fn_token.clone(),
                    params: copied,
                    return_type_arrow: clone_opt_token(return_type_arrow),
                    return_type,
                    body_expr: Box::new((**body_expr).clone()),
                }
            },
        }
    }
}

/// A copy of an optional type annotation, with the same view.
#[verifier::spinoff_prover]
fn clone_opt_type(t: &Option<TypeAnnotation>) -> (r: Option<TypeAnnotation>)
    ensures
        view_opt_type(r) == view_opt_type(*t),
{
    proof {
        reveal(view_opt_type);
        reveal(view_type);
    }
    match t {
        Some(t) => Some(t.clone()),
        None => None,
    }
}

impl Clone for Stmt {
    /// A copy with the same view.
    #[verifier::spinoff_prover]
    fn clone(&self) -> (r: Self)
        ensures
            r@ == self@,
        decreases self, 1nat,
    {
        match self {
            Stmt::LetDecl { .. } => clone_let_decl(self),
            Stmt::IfStmt { .. } => clone_if_stmt(self),
            Stmt::FunctionDecl { .. } => clone_function_decl(self),
            Stmt::StructDecl { .. } => clone_struct_decl(self),
            Stmt::EnumDecl { .. } => clone_enum_decl(self),
            _ => clone_plain_stmt(self),
        }
    }
}

/// A copy of a statement of the `LetDecl` kind, with the same view.
#[verifier::spinoff_prover]
fn clone_let_decl(s: &Stmt) -> (r: Stmt)
    requires
        s is LetDecl,
    ensures
        r@ == s@,
    decreases s, 0nat,
{
    proof {
        reveal(view_stmt);
        reveal(view_annotations);
        reveal(view_opt_type);
        reveal(view_opt_expression);
        reveal(view_expression);
    }
    match s {
        Stmt::LetDecl { annotations, let_token, name, type_ann, initializer } => {
            let anns = clone_annotations(annotations);
            let init = match initializer {
                Some(e) => Some(Box::new((**e).clone())),
                None => None,
            };
            Stmt::LetDecl {
                annotations: anns,
                let_token: let_token.clone(),
                name: name.clone(),
                type_ann: clone_opt_type(type_ann),
                initializer: init,
            }
        },
        _ => unreached(),
    }
}

/// A copy of a statement of the `IfStmt` kind, with the same view.
#[verifier::spinoff_prover]
fn clone_if_stmt(s: &Stmt) -> (r: Stmt)
    requires
        s is IfStmt,
    ensures
        r@ == s@,
    decreases s, 0nat,
{
    proof {
        reveal(view_stmt);
        reveal(view_expression);
        reveal(view_else_ifs);
        reveal(view_else);
    }
    match s {
        Stmt::IfStmt { if_token, condition, then_branch, else_if_branches, else_branch } => {
            let copied = clone_else_ifs(else_if_branches);
            let last = match else_branch {
                Some(b) => {
                    let c = b.clone();
                    assert(view_stmt(*c.branch) == view_stmt(*b.branch));
                    Some(c)
                },
                None => None,
            };
            assert(view_else(last) == view_else(*else_branch));
            Stmt::IfStmt {
                if_token: if_token.clone(),
                condition: Box::new((**condition).clone()),
                then_branch: Box::new((**then_branch).clone()),
                else_if_branches: copied,
                else_branch: last,
            }
        },
        _ => unreached(),
    }
}

/// A copy of a statement of the `FunctionDecl` kind, with the same view.
#[verifier::spinoff_prover]
fn clone_function_decl(s: &Stmt) -> (r: Stmt)
    requires
        s is FunctionDecl,
    ensures
        r@ == s@,
    decreases s, 0nat,
{
    proof {
        reveal(view_stmt);
        reveal(view_annotations);
        reveal(view_parameters);
        reveal(view_opt_type);
        reveal(view_stmts);
    }
    match s {
        Stmt::FunctionDecl {
            annotations,
            async_token,
            fn_token,
            name,
            params,
            return_type_arrow,
            return_type,
            body_left_brace,
            body,
            body_right_brace,
        } => {
            let anns = clone_annotations(annotations);
            let ps = clone_parameters(params);
            let stmts = clone_stmts(body);
            Stmt::FunctionDecl {
                annotations: anns,
                async_token: clone_opt_token(async_token),
                fn_token: fn_token.clone(),
                name: name.clone(),
                params: ps,
                return_type_arrow: clone_opt_token(return_type_arrow),
                return_type: clone_opt_type(return_type),
                body_left_brace: body_left_brace.clone(),
                body: stmts,
                body_right_brace: body_right_brace.clone(),
            }
        },
        _ => unreached(),
    }
}

/// A copy of a statement of the `StructDecl` kind, with the same view.
#[verifier::spinoff_prover]
fn clone_struct_decl(s: &Stmt) -> (r: Stmt)
    requires
        s is StructDecl,
    ensures
        r@ == s@,
    decreases s, 0nat,
{
    proof {
        reveal(view_stmt);
        reveal(view_annotations);
        reveal(view_fields);
    }
    match s {
        Stmt::StructDecl { annotations, struct_token, name, left_brace, fields, right_brace } => {
            let anns = clone_annotations(annotations);
            let fs = clone_fields(fields);
            Stmt::StructDecl {
                annotations: anns,
                struct_token: struct_token.clone(),
                name: name.clone(),
                left_brace: left_brace.clone(),
                fields: fs,
                right_brace: right_brace.clone(),
            }
        },
        _ => unreached(),
    }
}

/// A copy of a statement of the `EnumDecl` kind, with the same view.
#[verifier::spinoff_prover]
fn clone_enum_decl(s: &Stmt) -> (r: Stmt)
    requires
        s is EnumDecl,
    ensures
        r@ == s@,
    decreases s, 0nat,
{
    proof {
        reveal(view_stmt);
        reveal(view_annotations);
        reveal(view_variants);
    }
    match s {
        Stmt::EnumDecl { annotations, enum_token, name, left_brace, variants, right_brace } => {
            let anns = clone_annotations(annotations);
            let vs = clone_variants(variants);
            Stmt::EnumDecl {
                annotations: anns,
                enum_token: enum_token.clone(),
                name: name.clone(),
                left_brace: left_brace.clone(),
                variants: vs,
                right_brace: right_brace.clone(),
            }
        },
        _ => unreached(),
    }
}

/// A copy of a statement of one of the kinds without declarations, with the same view.
#[verifier::spinoff_prover]
fn clone_plain_stmt(s: &Stmt) -> (r: Stmt)
    requires
        !(s is LetDecl || s is IfStmt || s is FunctionDecl || s is StructDecl || s is EnumDecl),
    ensures
        r@ == s@,
    decreases s, 0nat,
{
    proof {
        reveal(view_stmt);
        reveal(view_expression);
        reveal(view_stmts);
        reveal(view_opt_expression);
    }
    match s {
        Stmt::ExpressionStmt(e) => Stmt::ExpressionStmt(Box::new((**e).clone())),
        Stmt::Block { left_brace, statements, right_brace } => {
            let copied = clone_stmts(statements);
            Stmt::Block { left_brace: left_brace.clone(), statements: copied, right_brace: right_brace.clone() }
        },
        Stmt::WhileStmt { while_token, condition, body } => Stmt::WhileStmt {
            while_token: while_token.clone(),
            condition: Box::new((**condition).clone()),
            body: Box::new((**body).clone()),
        },
        Stmt::ForStmt { for_token, variable, in_token, iterable, body } => Stmt::ForStmt {
            for_token: for_token.clone(),
            variable: variable.clone(),
            in_token: in_token.clone(),
            iterable: Box::new((**iterable).clone()),
            body: Box::new((**body).clone()),
        },
        Stmt::ReturnStmt { return_token, value } => {
            let v = match value {
                Some(e) => Some(Box::new((**e).clone())),
                None => None,
            };
            Stmt::ReturnStmt { return_token: return_token.clone(), value: v }
        },
        _ => unreached(),
    }
}

} // verus!

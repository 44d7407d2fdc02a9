//! The mathematical content of syntax trees: each tree type has a twin whose
//! lists are sequences, and a view from the tree to its twin.

use vstd::prelude::*;
use crate::abstract_syntax_tree::ast::{
    AnnotationNode, ConditionalExpressionContent, ElseBranch, ElseIfBranch, EnumVariantPatternFields, Expression, FieldDecl,
    LogicalAnd, LogicalOr, Equality, Comparison, Term, Factor, Unary, Postfix, MatchArm,
    MatchPattern, Parameter, PathExpression, Primary, Stmt, StructLiteralField,
    StructPatternField, TypeAnnotation, VariantDecl, VariantFields,
};
use crate::lexical::token::Token;
use crate::lexical::token_type::LiteralValue;

verus! {


/// The mathematical content of [`PathExpression`].
pub struct SpecPathExpression {
    pub segments: Seq<Token>,
}


/// The mathematical content of [`AnnotationNode`].
pub struct SpecAnnotationNode {
    pub at_token: Token,
    pub name: SpecPathExpression,
    pub arguments: Option<Seq<SpecExpression>>,
}

/// The mathematical content of [`TypeAnnotation`].
pub struct SpecTypeAnnotation {
    pub name: SpecPathExpression,
    pub is_optional: bool,
}

/// The mathematical content of [`Parameter`].
pub struct SpecParameter {
    pub annotations: Seq<SpecAnnotationNode>,
    pub name: Token,
    pub colon_token: Option<Token>,
    pub type_ann: Option<SpecTypeAnnotation>,
}

/// The mathematical content of [`FieldDecl`].
pub struct SpecFieldDecl {
    pub annotations: Seq<SpecAnnotationNode>,
    pub name: Token,
    pub colon_token: Token,
    pub type_ann: SpecTypeAnnotation,
}

/// The mathematical content of [`VariantFields`].
pub enum SpecVariantFields {
    Tuple(Token, Seq<SpecTypeAnnotation>, Token),
    Struct(Token, Seq<SpecFieldDecl>, Token),
}

/// The mathematical content of [`VariantDecl`].
pub struct SpecVariantDecl {
    pub annotations: Seq<SpecAnnotationNode>,
    pub name: Token,
    pub fields: Option<SpecVariantFields>,
}

/// The mathematical content of [`ElseIfBranch`].
pub struct SpecElseIfBranch {
    pub else_token: Token,
    pub if_token: Token,
    pub condition: Box<SpecExpression>,
    pub then_branch: Box<SpecStmt>,
}

/// The mathematical content of [`ElseBranch`].
pub struct SpecElseBranch {
    pub else_token: Token,
    pub branch: Box<SpecStmt>,
}

/// The mathematical content of [`Stmt`].
pub enum SpecStmt {
    ExpressionStmt(Box<SpecExpression>),
    LetDecl {
        annotations: Seq<SpecAnnotationNode>,
        let_token: Token,
        name: Token,
        type_ann: Option<SpecTypeAnnotation>,
        initializer: Option<Box<SpecExpression>>,
    },
    Block { left_brace: Token, statements: Seq<SpecStmt>, right_brace: Token },
    IfStmt {
        if_token: Token,
        condition: Box<SpecExpression>,
        then_branch: Box<SpecStmt>,
        else_if_branches: Seq<SpecElseIfBranch>,
        else_branch: Option<SpecElseBranch>,
    },
    WhileStmt { while_token: Token, condition: Box<SpecExpression>, body: Box<SpecStmt> },
    ForStmt { for_token: Token, variable: Token, in_token: Token, iterable: Box<SpecExpression>, body: Box<SpecStmt> },
    FunctionDecl {
        annotations: Seq<SpecAnnotationNode>,
        async_token: Option<Token>,
        fn_token: Token,
        name: Token,
        params: Seq<SpecParameter>,
        return_type_arrow: Option<Token>,
        return_type: Option<SpecTypeAnnotation>,
        body_left_brace: Token,
        body: Seq<SpecStmt>,
        body_right_brace: Token,
    },
    ReturnStmt { return_token: Token, value: Option<Box<SpecExpression>> },
    StructDecl {
        annotations: Seq<SpecAnnotationNode>,
        struct_token: Token,
        name: Token,
        left_brace: Token,
        fields: Seq<SpecFieldDecl>,
        right_brace: Token,
    },
    EnumDecl {
        annotations: Seq<SpecAnnotationNode>,
        enum_token: Token,
        name: Token,
        left_brace: Token,
        variants: Seq<SpecVariantDecl>,
        right_brace: Token,
    },
}

/// The mathematical content of [`Expression`].
pub enum SpecExpression {
    Assign { target: Box<SpecPostfix>, equals_token: Token, value: Box<SpecExpression> },
    Conditional(Box<SpecConditionalExpressionContent>),
    LogicalOr(Box<SpecLogicalOr>),
}

/// The mathematical content of [`ConditionalExpressionContent`].
pub struct SpecConditionalExpressionContent {
    pub condition_expr: Box<SpecLogicalOr>,
    pub question_token: Token,
    pub then_expr: Box<SpecExpression>,
    pub colon_token: Token,
    pub else_expr: Box<SpecExpression>,
}

/// The mathematical content of [`LogicalOr`].
pub enum SpecLogicalOr {
    Binary { left: Box<SpecLogicalAnd>, operator: Token, right: Box<SpecLogicalAnd> },
    Next(Box<SpecLogicalAnd>),
}

/// The mathematical content of [`LogicalAnd`].
pub enum SpecLogicalAnd {
    Binary { left: Box<SpecEquality>, operator: Token, right: Box<SpecEquality> },
    Next(Box<SpecEquality>),
}

/// The mathematical content of [`Equality`].
pub enum SpecEquality {
    Binary { left: Box<SpecComparison>, operator: Token, right: Box<SpecComparison> },
    Next(Box<SpecComparison>),
}

/// The mathematical content of [`Comparison`].
pub enum SpecComparison {
    Binary { left: Box<SpecTerm>, operator: Token, right: Box<SpecTerm> },
    Next(Box<SpecTerm>),
}

/// The mathematical content of [`Term`].
pub enum SpecTerm {
    Binary { left: Box<SpecFactor>, operator: Token, right: Box<SpecFactor> },
    Next(Box<SpecFactor>),
}

/// The mathematical content of [`Factor`].
pub enum SpecFactor {
    Binary { left: Box<SpecUnary>, operator: Token, right: Box<SpecUnary> },
    Next(Box<SpecUnary>),
}

/// The mathematical content of [`Unary`].
pub enum SpecUnary {
    Prefixed { operator: Token, operand: Box<SpecUnary> },
    Next(Box<SpecPostfix>),
}

/// The mathematical content of [`Postfix`].
pub enum SpecPostfix {
    FunctionCall { callee: Box<SpecPostfix>, left_paren: Token, arguments: Seq<SpecExpression>, right_paren: Token },
    PropertyGet { object: Box<SpecPostfix>, dot_token: Token, optional_chain_token: Option<Token>, name: Token },
    Item(Box<SpecPrimary>),
}

/// The mathematical content of [`MatchArm`].
pub struct SpecMatchArm {
    pub pattern: SpecMatchPattern,
    pub arrow_token: Token,
    pub body: Box<SpecExpression>,
    pub comma_token: Option<Token>,
}

/// The mathematical content of [`MatchPattern`].
pub enum SpecMatchPattern {
    Literal(LiteralValue),
    Identifier(Token),
    StructPattern { name: SpecPathExpression, left_brace: Token, fields: Seq<SpecStructPatternField>, right_brace: Token },
    EnumVariantPattern { path: SpecPathExpression, fields: Option<SpecEnumVariantPatternFields> },
}

/// The mathematical content of [`StructPatternField`].
pub struct SpecStructPatternField {
    pub field_name: Token,
    pub colon_and_pattern: Option<(Token, Box<SpecMatchPattern>)>,
}

/// The mathematical content of [`EnumVariantPatternFields`].
pub enum SpecEnumVariantPatternFields {
    Tuple(Token, Seq<SpecMatchPattern>, Token),
    Struct(Token, Seq<SpecStructPatternField>, Token),
}

/// The mathematical content of [`StructLiteralField`].
pub struct SpecStructLiteralField {
    pub name: Token,
    pub colon_token: Token,
    pub value: Box<SpecExpression>,
}

/// The mathematical content of [`Primary`].
pub enum SpecPrimary {
    Literal(LiteralValue),
    Identifier(Token),
    Grouping { left_paren: Token, expression: Box<SpecExpression>, right_paren: Token },
    StructLiteral { name: Token, left_brace: Token, fields: Seq<SpecStructLiteralField>, right_brace: Token },
    EnumPath(SpecPathExpression),
    MatchExpr { match_token: Token, expression: Box<SpecExpression>, left_brace: Token, arms: Seq<SpecMatchArm>, right_brace: Token },
    Lambda {
        fn_token: Token,
        params: Seq<SpecParameter>,
        return_type_arrow: Option<Token>,
        return_type: Option<SpecTypeAnnotation>,
        body_expr: Box<SpecExpression>,
    },
}


/// The view of a path.
#[verifier::opaque]
pub open spec fn view_path(p: PathExpression) -> SpecPathExpression {
    SpecPathExpression { segments: p.segments@ }
}

/// The view of a type annotation.
#[verifier::opaque]
pub open spec fn view_type(t: TypeAnnotation) -> SpecTypeAnnotation {
    SpecTypeAnnotation { name: view_path(t.name), is_optional: t.is_optional }
}

/// The view of an optional type annotation.
#[verifier::opaque]
pub open spec fn view_opt_type(t: Option<TypeAnnotation>) -> Option<SpecTypeAnnotation> {
    match t {
        Some(t) => Some(view_type(t)),
        None => None,
    }
}

/// The view of a list of type annotations.
#[verifier::opaque]
pub open spec fn view_types(v: Vec<TypeAnnotation>) -> Seq<SpecTypeAnnotation> {
    v@.map_values(|t: TypeAnnotation| view_type(t))
}

/// The view of an annotation.
#[verifier::opaque]
pub open spec fn view_annotation(a: AnnotationNode) -> SpecAnnotationNode
    decreases a,
{
    SpecAnnotationNode {
        at_token: a.at_token,
        name: view_path(a.name),
        arguments: match a.arguments {
            Some(v) => Some(
                Seq::new(
                    v.len() as nat,
                    |i: int|
                        if 0 <= i < v.len() {
                            view_expression(v[i])
                        } else {
                            arbitrary()
                        },
                ),
            ),
            None => None,
        },
    }
}

/// The view of a list of annotations.
#[verifier::opaque]
pub open spec fn view_annotations(v: Vec<AnnotationNode>) -> Seq<SpecAnnotationNode>
    decreases v,
{
    Seq::new(v.len() as nat, |i: int| if 0 <= i < v.len() { view_annotation(v[i]) } else { arbitrary() })
}

/// The view of a parameter.
#[verifier::opaque]
pub open spec fn view_parameter(p: Parameter) -> SpecParameter
    decreases p,
{
    SpecParameter {
        annotations: view_annotations(p.annotations),
        name: p.name,
        colon_token: p.colon_token,
        type_ann: view_opt_type(p.type_ann),
    }
}

/// The view of a list of parameters.
#[verifier::opaque]
pub open spec fn view_parameters(v: Vec<Parameter>) -> Seq<SpecParameter>
    decreases v,
{
    Seq::new(v.len() as nat, |i: int| if 0 <= i < v.len() { view_parameter(v[i]) } else { arbitrary() })
}

/// The view of a field declaration.
#[verifier::opaque]
pub open spec fn view_field(f: FieldDecl) -> SpecFieldDecl
    decreases f,
{
    SpecFieldDecl {
        annotations: view_annotations(f.annotations),
        name: f.name,
        colon_token: f.colon_token,
        type_ann: view_type(f.type_ann),
    }
}

/// The view of a list of field declarations.
#[verifier::opaque]
pub open spec fn view_fields(v: Vec<FieldDecl>) -> Seq<SpecFieldDecl>
    decreases v,
{
    Seq::new(v.len() as nat, |i: int| if 0 <= i < v.len() { view_field(v[i]) } else { arbitrary() })
}

/// The view of the data of an enum variant.
#[verifier::opaque]
pub open spec fn view_variant_fields(f: VariantFields) -> SpecVariantFields
    decreases f,
{
    match f {
        VariantFields::Tuple(l, ts, r) => SpecVariantFields::Tuple(l, view_types(ts), r),
        VariantFields::Struct(l, fs, r) => SpecVariantFields::Struct(l, view_fields(fs), r),
    }
}

/// The view of an enum variant.
#[verifier::opaque]
pub open spec fn view_variant(v: VariantDecl) -> SpecVariantDecl
    decreases v,
{
    SpecVariantDecl {
        annotations: view_annotations(v.annotations),
        name: v.name,
        fields: match v.fields {
            Some(f) => Some(view_variant_fields(f)),
            None => None,
        },
    }
}

/// The view of a list of enum variants.
#[verifier::opaque]
pub open spec fn view_variants(v: Vec<VariantDecl>) -> Seq<SpecVariantDecl>
    decreases v,
{
    Seq::new(v.len() as nat, |i: int| if 0 <= i < v.len() { view_variant(v[i]) } else { arbitrary() })
}

/// The view of an `else if` branch.
#[verifier::opaque]
pub open spec fn view_else_if(b: ElseIfBranch) -> SpecElseIfBranch
    decreases b,
{
    SpecElseIfBranch {
        else_token: b.else_token,
        if_token: b.if_token,
        condition: Box::new(view_expression(*b.condition)),
        then_branch: Box::new(view_stmt(*b.then_branch)),
    }
}

/// The view of a list of `else if` branches.
#[verifier::opaque]
pub open spec fn view_else_ifs(v: Vec<ElseIfBranch>) -> Seq<SpecElseIfBranch>
    decreases v,
{
    Seq::new(v.len() as nat, |i: int| if 0 <= i < v.len() { view_else_if(v[i]) } else { arbitrary() })
}

/// The view of an optional final `else` branch.
#[verifier::opaque]
pub open spec fn view_else(b: Option<ElseBranch>) -> Option<SpecElseBranch>
    decreases b,
{
    match b {
        Some(b) => Some(SpecElseBranch { else_token: b.else_token, branch: Box::new(view_stmt(*b.branch)) }),
        None => None,
    }
}

/// The view of an optional boxed expression.
#[verifier::opaque]
pub open spec fn view_opt_expression(e: Option<Box<Expression>>) -> Option<Box<SpecExpression>>
    decreases e,
{
    match e {
        Some(e) => Some(Box::new(view_expression(*e))),
        None => None,
    }
}

/// The view of a list of statements.
#[verifier::opaque]
pub open spec fn view_stmts(v: Vec<Stmt>) -> Seq<SpecStmt>
    decreases v,
{
    Seq::new(v.len() as nat, |i: int| if 0 <= i < v.len() { view_stmt(v[i]) } else { arbitrary() })
}

/// The view of a statement.
#[verifier::opaque]
pub open spec fn view_stmt(s: Stmt) -> SpecStmt
    decreases s,
{
    match s {
        Stmt::ExpressionStmt(e) => SpecStmt::ExpressionStmt(Box::new(view_expression(*e))),
        Stmt::LetDecl { annotations, let_token, name, type_ann, initializer } => SpecStmt::LetDecl {
            annotations: view_annotations(annotations),
            let_token,
            name,
            type_ann: view_opt_type(type_ann),
            initializer: view_opt_expression(initializer),
        },
        Stmt::Block { left_brace, statements, right_brace } => SpecStmt::Block {
            left_brace,
            statements: view_stmts(statements),
            right_brace,
        },
        Stmt::IfStmt { if_token, condition, then_branch, else_if_branches, else_branch } => SpecStmt::IfStmt {
            if_token,
            condition: Box::new(view_expression(*condition)),
            then_branch: Box::new(view_stmt(*then_branch)),
            else_if_branches: view_else_ifs(else_if_branches),
            else_branch: view_else(else_branch),
        },
        Stmt::WhileStmt { while_token, condition, body } => SpecStmt::WhileStmt {
            while_token,
            condition: Box::new(view_expression(*condition)),
            body: Box::new(view_stmt(*body)),
        },
        Stmt::ForStmt { for_token, variable, in_token, iterable, body } => SpecStmt::ForStmt {
            for_token,
            variable,
            in_token,
            iterable: Box::new(view_expression(*iterable)),
            body: Box::new(view_stmt(*body)),
        },
        Stmt::FunctionDecl {
            annotations,
            async_token,
            fn_token,
            name,
            params,
            return_type_arrow,
            return_type,
            body_left_brace,
            body,
            body_right_brace,
        } => SpecStmt::FunctionDecl {
            annotations: view_annotations(annotations),
            async_token,
            fn_token,
            name,
            params: view_parameters(params),
            return_type_arrow,
            return_type: view_opt_type(return_type),
            body_left_brace,
            body: view_stmts(body),
            body_right_brace,
        },
        Stmt::ReturnStmt { return_token, value } => SpecStmt::ReturnStmt {
            return_token,
            value: view_opt_expression(value),
        },
        Stmt::StructDecl { annotations, struct_token, name, left_brace, fields, right_brace } => SpecStmt::StructDecl {
            annotations: view_annotations(annotations),
            struct_token,
            name,
            left_brace,
            fields: view_fields(fields),
            right_brace,
        },
        Stmt::EnumDecl { annotations, enum_token, name, left_brace, variants, right_brace } => SpecStmt::EnumDecl {
            annotations: view_annotations(annotations),
            enum_token,
            name,
            left_brace,
            variants: view_variants(variants),
            right_brace,
        },
    }
}

/// The view of a list of expressions.
#[verifier::opaque]
pub open spec fn view_expressions(v: Vec<Expression>) -> Seq<SpecExpression>
    decreases v,
{
    Seq::new(v.len() as nat, |i: int| if 0 <= i < v.len() { view_expression(v[i]) } else { arbitrary() })
}

/// The view of an expression.
#[verifier::opaque]
pub open spec fn view_expression(e: Expression) -> SpecExpression
    decreases e,
{
    match e {
        Expression::Assign { target, equals_token, value } => SpecExpression::Assign {
            target: Box::new(view_postfix(*target)),
            equals_token,
            value: Box::new(view_expression(*value)),
        },
        Expression::Conditional(c) => SpecExpression::Conditional(
            Box::new(
                SpecConditionalExpressionContent {
                    condition_expr: Box::new(view_or(*c.condition_expr)),
                    question_token: c.question_token,
                    then_expr: Box::new(view_expression(*c.then_expr)),
                    colon_token: c.colon_token,
                    else_expr: Box::new(view_expression(*c.else_expr)),
                },
            ),
        ),
        Expression::LogicalOr(o) => SpecExpression::LogicalOr(Box::new(view_or(*o))),
    }
}

/// The view of a logical-or expression.
#[verifier::opaque]
pub open spec fn view_or(e: LogicalOr) -> SpecLogicalOr
    decreases e,
{
    match e {
        LogicalOr::Binary { left, operator, right } => SpecLogicalOr::Binary {
            left: Box::new(view_and(*left)),
            operator,
            right: Box::new(view_and(*right)),
        },
        LogicalOr::Next(n) => SpecLogicalOr::Next(Box::new(view_and(*n))),
    }
}

/// The view of a logical-and expression.
#[verifier::opaque]
pub open spec fn view_and(e: LogicalAnd) -> SpecLogicalAnd
    decreases e,
{
    match e {
        LogicalAnd::Binary { left, operator, right } => SpecLogicalAnd::Binary {
            left: Box::new(view_equality(*left)),
            operator,
            right: Box::new(view_equality(*right)),
        },
        LogicalAnd::Next(n) => SpecLogicalAnd::Next(Box::new(view_equality(*n))),
    }
}

/// The view of an equality expression.
#[verifier::opaque]
pub open spec fn view_equality(e: Equality) -> SpecEquality
    decreases e,
{
    match e {
        Equality::Binary { left, operator, right } => SpecEquality::Binary {
            left: Box::new(view_comparison(*left)),
            operator,
            right: Box::new(view_comparison(*right)),
        },
        Equality::Next(n) => SpecEquality::Next(Box::new(view_comparison(*n))),
    }
}

/// The view of a comparison expression.
#[verifier::opaque]
pub open spec fn view_comparison(e: Comparison) -> SpecComparison
    decreases e,
{
    match e {
        Comparison::Binary { left, operator, right } => SpecComparison::Binary {
            left: Box::new(view_term(*left)),
            operator,
            right: Box::new(view_term(*right)),
        },
        Comparison::Next(n) => SpecComparison::Next(Box::new(view_term(*n))),
    }
}

/// The view of a term expression.
#[verifier::opaque]
pub open spec fn view_term(e: Term) -> SpecTerm
    decreases e,
{
    match e {
        Term::Binary { left, operator, right } => SpecTerm::Binary {
            left: Box::new(view_factor(*left)),
            operator,
            right: Box::new(view_factor(*right)),
        },
        Term::Next(n) => SpecTerm::Next(Box::new(view_factor(*n))),
    }
}

/// The view of a factor expression.
#[verifier::opaque]
pub open spec fn view_factor(e: Factor) -> SpecFactor
    decreases e,
{
    match e {
        Factor::Binary { left, operator, right } => SpecFactor::Binary {
            left: Box::new(view_unary(*left)),
            operator,
            right: Box::new(view_unary(*right)),
        },
        Factor::Next(n) => SpecFactor::Next(Box::new(view_unary(*n))),
    }
}

/// The view of a unary expression.
#[verifier::opaque]
pub open spec fn view_unary(e: Unary) -> SpecUnary
    decreases e,
{
    match e {
        Unary::Prefixed { operator, operand } => SpecUnary::Prefixed {
            operator,
            operand: Box::new(view_unary(*operand)),
        },
        Unary::Next(n) => SpecUnary::Next(Box::new(view_postfix(*n))),
    }
}

/// The view of a postfix expression.
#[verifier::opaque]
pub open spec fn view_postfix(e: Postfix) -> SpecPostfix
    decreases e,
{
    match e {
        Postfix::FunctionCall { callee, left_paren, arguments, right_paren } => SpecPostfix::FunctionCall {
            callee: Box::new(view_postfix(*callee)),
            left_paren,
            arguments: view_expressions(arguments),
            right_paren,
        },
        Postfix::PropertyGet { object, dot_token, optional_chain_token, name } => SpecPostfix::PropertyGet {
            object: Box::new(view_postfix(*object)),
            dot_token,
            optional_chain_token,
            name,
        },
        Postfix::Item(p) => SpecPostfix::Item(Box::new(view_primary(*p))),
    }
}

/// The view of a match arm.
#[verifier::opaque]
pub open spec fn view_arm(a: MatchArm) -> SpecMatchArm
    decreases a,
{
    SpecMatchArm {
        pattern: view_pattern(a.pattern),
        arrow_token: a.arrow_token,
        body: Box::new(view_expression(*a.body)),
        comma_token: a.comma_token,
    }
}

/// The view of a list of match arms.
#[verifier::opaque]
pub open spec fn view_arms(v: Vec<MatchArm>) -> Seq<SpecMatchArm>
    decreases v,
{
    Seq::new(v.len() as nat, |i: int| if 0 <= i < v.len() { view_arm(v[i]) } else { arbitrary() })
}

/// The view of a match pattern.
#[verifier::opaque]
pub open spec fn view_pattern(p: MatchPattern) -> SpecMatchPattern
    decreases p,
{
    match p {
        MatchPattern::Literal(l) => SpecMatchPattern::Literal(l),
        MatchPattern::Identifier(t) => SpecMatchPattern::Identifier(t),
        MatchPattern::StructPattern { name, left_brace, fields, right_brace } => SpecMatchPattern::StructPattern {
            name: view_path(name),
            left_brace,
            fields: view_pattern_fields(fields),
            right_brace,
        },
        MatchPattern::EnumVariantPattern { path, fields } => SpecMatchPattern::EnumVariantPattern {
            path: view_path(path),
            fields: match fields {
                Some(EnumVariantPatternFields::Tuple(l, ps, r)) => Some(
                    SpecEnumVariantPatternFields::Tuple(l, view_patterns(ps), r),
                ),
                Some(EnumVariantPatternFields::Struct(l, fs, r)) => Some(
                    SpecEnumVariantPatternFields::Struct(l, view_pattern_fields(fs), r),
                ),
                None => None,
            },
        },
    }
}

/// The view of a list of match patterns.
#[verifier::opaque]
pub open spec fn view_patterns(v: Vec<MatchPattern>) -> Seq<SpecMatchPattern>
    decreases v,
{
    Seq::new(v.len() as nat, |i: int| if 0 <= i < v.len() { view_pattern(v[i]) } else { arbitrary() })
}

/// The view of a field of a struct pattern.
#[verifier::opaque]
pub open spec fn view_pattern_field(f: StructPatternField) -> SpecStructPatternField
    decreases f,
{
    SpecStructPatternField {
        field_name: f.field_name,
        colon_and_pattern: match f.colon_and_pattern {
            Some((c, p)) => Some((c, Box::new(view_pattern(*p)))),
            None => None,
        },
    }
}

/// The view of the fields of a struct pattern.
#[verifier::opaque]
pub open spec fn view_pattern_fields(v: Vec<StructPatternField>) -> Seq<SpecStructPatternField>
    decreases v,
{
    Seq::new(v.len() as nat, |i: int| if 0 <= i < v.len() { view_pattern_field(v[i]) } else { arbitrary() })
}

/// The view of the fields of a struct literal.
#[verifier::opaque]
pub open spec fn view_literal_fields(v: Vec<StructLiteralField>) -> Seq<SpecStructLiteralField>
    decreases v,
{
    Seq::new(
        v.len() as nat,
        |i: int|
            if 0 <= i < v.len() {
                SpecStructLiteralField {
                    name: v[i].name,
                    colon_token: v[i].colon_token,
                    value: Box::new(view_expression(*v[i].value)),
                }
            } else {
                arbitrary()
            },
    )
}

/// The view of a primary expression.
#[verifier::opaque]
pub open spec fn view_primary(p: Primary) -> SpecPrimary
    decreases p,
{
    match p {
        Primary::Literal(l) => SpecPrimary::Literal(l),
        Primary::Identifier(t) => SpecPrimary::Identifier(t),
        Primary::Grouping { left_paren, expression, right_paren } => SpecPrimary::Grouping {
            left_paren,
            expression: Box::new(view_expression(*expression)),
            right_paren,
        },
        Primary::StructLiteral { name, left_brace, fields, right_brace } => SpecPrimary::StructLiteral {
            name,
            left_brace,
            fields: view_literal_fields(fields),
            right_brace,
        },
        Primary::EnumPath(p) => SpecPrimary::EnumPath(view_path(p)),
        Primary::MatchExpr { match_token, expression, left_brace, arms, right_brace } => SpecPrimary::MatchExpr {
            match_token,
            expression: Box::new(view_expression(*expression)),
            left_brace,
            arms: view_arms(arms),
            right_brace,
        },
        Primary::Lambda { fn_token, params, return_type_arrow, return_type, body_expr } => SpecPrimary::Lambda {
            fn_token,
            params: view_parameters(params),
            return_type_arrow,
            return_type: view_opt_type(return_type),
            body_expr: Box::new(view_expression(*body_expr)),
        },
    }
}

impl View for PathExpression {
    type V = SpecPathExpression;

    open spec fn view(&self) -> SpecPathExpression {
        view_path(*self)
    }
}

impl View for TypeAnnotation {
    type V = SpecTypeAnnotation;

    open spec fn view(&self) -> SpecTypeAnnotation {
        view_type(*self)
    }
}

impl View for AnnotationNode {
    type V = SpecAnnotationNode;

    open spec fn view(&self) -> SpecAnnotationNode {
        view_annotation(*self)
    }
}

impl View for Parameter {
    type V = SpecParameter;

    open spec fn view(&self) -> SpecParameter {
        view_parameter(*self)
    }
}

impl View for FieldDecl {
    type V = SpecFieldDecl;

    open spec fn view(&self) -> SpecFieldDecl {
        view_field(*self)
    }
}

impl View for VariantFields {
    type V = SpecVariantFields;

    open spec fn view(&self) -> SpecVariantFields {
        view_variant_fields(*self)
    }
}

impl View for VariantDecl {
    type V = SpecVariantDecl;

    open spec fn view(&self) -> SpecVariantDecl {
        view_variant(*self)
    }
}

impl View for ElseIfBranch {
    type V = SpecElseIfBranch;

    open spec fn view(&self) -> SpecElseIfBranch {
        view_else_if(*self)
    }
}

impl View for Stmt {
    type V = SpecStmt;

    open spec fn view(&self) -> SpecStmt {
        view_stmt(*self)
    }
}

impl View for Expression {
    type V = SpecExpression;

    open spec fn view(&self) -> SpecExpression {
        view_expression(*self)
    }
}

impl View for LogicalOr {
    type V = SpecLogicalOr;

    open spec fn view(&self) -> SpecLogicalOr {
        view_or(*self)
    }
}

impl View for LogicalAnd {
    type V = SpecLogicalAnd;

    open spec fn view(&self) -> SpecLogicalAnd {
        view_and(*self)
    }
}

impl View for Equality {
    type V = SpecEquality;

    open spec fn view(&self) -> SpecEquality {
        view_equality(*self)
    }
}

impl View for Comparison {
    type V = SpecComparison;

    open spec fn view(&self) -> SpecComparison {
        view_comparison(*self)
    }
}

impl View for Term {
    type V = SpecTerm;

    open spec fn view(&self) -> SpecTerm {
        view_term(*self)
    }
}

impl View for Factor {
    type V = SpecFactor;

    open spec fn view(&self) -> SpecFactor {
        view_factor(*self)
    }
}

impl View for Unary {
    type V = SpecUnary;

    open spec fn view(&self) -> SpecUnary {
        view_unary(*self)
    }
}

impl View for Postfix {
    type V = SpecPostfix;

    open spec fn view(&self) -> SpecPostfix {
        view_postfix(*self)
    }
}

impl View for MatchArm {
    type V = SpecMatchArm;

    open spec fn view(&self) -> SpecMatchArm {
        view_arm(*self)
    }
}

impl View for MatchPattern {
    type V = SpecMatchPattern;

    open spec fn view(&self) -> SpecMatchPattern {
        view_pattern(*self)
    }
}

impl View for StructPatternField {
    type V = SpecStructPatternField;

    open spec fn view(&self) -> SpecStructPatternField {
        view_pattern_field(*self)
    }
}

impl View for Primary {
    type V = SpecPrimary;

    open spec fn view(&self) -> SpecPrimary {
        view_primary(*self)
    }
}

impl View for ElseBranch {
    type V = SpecElseBranch;

    open spec fn view(&self) -> SpecElseBranch {
        SpecElseBranch { else_token: self.else_token, branch: Box::new(view_stmt(*self.branch)) }
    }
}

impl View for ConditionalExpressionContent {
    type V = SpecConditionalExpressionContent;

    open spec fn view(&self) -> SpecConditionalExpressionContent {
        SpecConditionalExpressionContent {
            condition_expr: Box::new(view_or(*self.condition_expr)),
            question_token: self.question_token,
            then_expr: Box::new(view_expression(*self.then_expr)),
            colon_token: self.colon_token,
            else_expr: Box::new(view_expression(*self.else_expr)),
        }
    }
}

impl View for EnumVariantPatternFields {
    type V = SpecEnumVariantPatternFields;

    open spec fn view(&self) -> SpecEnumVariantPatternFields {
        match *self {
            EnumVariantPatternFields::Tuple(l, ps, r) => SpecEnumVariantPatternFields::Tuple(l, view_patterns(ps), r),
            EnumVariantPatternFields::Struct(l, fs, r) => SpecEnumVariantPatternFields::Struct(
                l,
                view_pattern_fields(fs),
                r,
            ),
        }
    }
}

impl View for StructLiteralField {
    type V = SpecStructLiteralField;

    open spec fn view(&self) -> SpecStructLiteralField {
        SpecStructLiteralField { name: self.name, colon_token: self.colon_token, value: Box::new(view_expression(*self.value)) }
    }
}

} // verus!

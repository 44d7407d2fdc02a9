//! The syntax tree that the parser builds.
//!
//! Expressions follow the precedence levels of the grammar, loosest first:
//! assignment, logical or, logical and, equality, comparison, term (`+ -`),
//! factor (`* /`), unary (`! -`), postfix (calls, property access), primary.

use vstd::prelude::*;
use crate::lexical::token::Token;
use crate::lexical::token_type::LiteralValue;

verus! {

/// A path such as `a`, `a::b` or `a.b`: its identifier tokens, without the separators.
#[derive(Debug, PartialEq)]
pub struct PathExpression {
    pub segments: Vec<Token>,
}

/// A whole program: its top-level declarations and statements in order.
pub type Program = Vec<Stmt>;

/// An annotation such as `@name`, `@name(a, b)` or `@name = value`.
#[derive(Debug, PartialEq)]
pub struct AnnotationNode {
    pub at_token: Token,
    pub name: PathExpression,
    pub arguments: Option<Vec<Expression>>,
}

/// A type written as a path, optionally followed by `?`.
#[derive(Debug, PartialEq)]
pub struct TypeAnnotation {
    pub name: PathExpression,
    pub is_optional: bool,
}

/// A function parameter: `name` or `name: Type`, with its annotations.
#[derive(Debug, PartialEq)]
pub struct Parameter {
    pub annotations: Vec<AnnotationNode>,
    pub name: Token,
    pub colon_token: Option<Token>,
    pub type_ann: Option<TypeAnnotation>,
}

/// A field of a struct or of a struct-like enum variant: `name: Type`.
#[derive(Debug, PartialEq)]
pub struct FieldDecl {
    pub annotations: Vec<AnnotationNode>,
    pub name: Token,
    pub colon_token: Token,
    pub type_ann: TypeAnnotation,
}

/// The data of an enum variant: `(T1, T2)` or `{ f: T }`, with its brackets.
#[derive(Debug, PartialEq)]
pub enum VariantFields {
    Tuple(Token, Vec<TypeAnnotation>, Token),
    Struct(Token, Vec<FieldDecl>, Token),
}

/// An enum variant.
#[derive(Debug, PartialEq)]
pub struct VariantDecl {
    pub annotations: Vec<AnnotationNode>,
    pub name: Token,
    pub fields: Option<VariantFields>,
}

/// An `else if condition statement` branch.
#[derive(Debug, PartialEq)]
pub struct ElseIfBranch {
    pub else_token: Token,
    pub if_token: Token,
    pub condition: Box<Expression>,
    pub then_branch: Box<Stmt>,
}

/// A final `else statement` branch.
#[derive(Debug, PartialEq)]
pub struct ElseBranch {
    pub else_token: Token,
    pub branch: Box<Stmt>,
}

/// A declaration or statement.
#[derive(Debug, PartialEq)]
pub enum Stmt {
    ExpressionStmt(Box<Expression>),
    LetDecl {
        annotations: Vec<AnnotationNode>,
        let_token: Token,
        name: Token,
        type_ann: Option<TypeAnnotation>,
        initializer: Option<Box<Expression>>,
    },
    Block { left_brace: Token, statements: Vec<Stmt>, right_brace: Token },
    IfStmt {
        if_token: Token,
        condition: Box<Expression>,
        then_branch: Box<Stmt>,
        else_if_branches: Vec<ElseIfBranch>,
        else_branch: Option<ElseBranch>,
    },
    WhileStmt { while_token: Token, condition: Box<Expression>, body: Box<Stmt> },
    ForStmt { for_token: Token, variable: Token, in_token: Token, iterable: Box<Expression>, body: Box<Stmt> },
    FunctionDecl {
        annotations: Vec<AnnotationNode>,
        async_token: Option<Token>,
        fn_token: Token,
        name: Token,
        params: Vec<Parameter>,
        return_type_arrow: Option<Token>,
        return_type: Option<TypeAnnotation>,
        body_left_brace: Token,
        body: Vec<Stmt>,
        body_right_brace: Token,
    },
    ReturnStmt { return_token: Token, value: Option<Box<Expression>> },
    StructDecl {
        annotations: Vec<AnnotationNode>,
        struct_token: Token,
        name: Token,
        left_brace: Token,
        fields: Vec<FieldDecl>,
        right_brace: Token,
    },
    EnumDecl {
        annotations: Vec<AnnotationNode>,
        enum_token: Token,
        name: Token,
        left_brace: Token,
        variants: Vec<VariantDecl>,
        right_brace: Token,
    },
}

/// An expression.
#[derive(Debug, PartialEq)]
pub enum Expression {
    Assign { target: Box<Postfix>, equals_token: Token, value: Box<Expression> },
    Conditional(Box<ConditionalExpressionContent>),
    LogicalOr(Box<LogicalOr>),
}

/// A conditional expression `condition ? then : else`.
#[derive(Debug, PartialEq)]
pub struct ConditionalExpressionContent {
    pub condition_expr: Box<LogicalOr>,
    pub question_token: Token,
    pub then_expr: Box<Expression>,
    pub colon_token: Token,
    pub else_expr: Box<Expression>,
}

/// `a or b`, or a single operand.
#[derive(Debug, PartialEq)]
pub enum LogicalOr {
    Binary { left: Box<LogicalAnd>, operator: Token, right: Box<LogicalAnd> },
    Next(Box<LogicalAnd>),
}

/// `a and b`, or a single operand.
#[derive(Debug, PartialEq)]
pub enum LogicalAnd {
    Binary { left: Box<Equality>, operator: Token, right: Box<Equality> },
    Next(Box<Equality>),
}

/// `a == b`, `a != b`, or a single operand.
#[derive(Debug, PartialEq)]
pub enum Equality {
    Binary { left: Box<Comparison>, operator: Token, right: Box<Comparison> },
    Next(Box<Comparison>),
}

/// `a < b`, `a <= b`, `a > b`, `a >= b`, or a single operand.
#[derive(Debug, PartialEq)]
pub enum Comparison {
    Binary { left: Box<Term>, operator: Token, right: Box<Term> },
    Next(Box<Term>),
}

/// `a + b`, `a - b`, or a single operand.
#[derive(Debug, PartialEq)]
pub enum Term {
    Binary { left: Box<Factor>, operator: Token, right: Box<Factor> },
    Next(Box<Factor>),
}

/// `a * b`, `a / b`, or a single operand.
#[derive(Debug, PartialEq)]
pub enum Factor {
    Binary { left: Box<Unary>, operator: Token, right: Box<Unary> },
    Next(Box<Unary>),
}

/// `!a`, `-a`, or a postfix expression.
#[derive(Debug, PartialEq)]
pub enum Unary {
    Prefixed { operator: Token, operand: Box<Unary> },
    Next(Box<Postfix>),
}

/// Calls and property accesses applied to a primary expression.
#[derive(Debug, PartialEq)]
pub enum Postfix {
    FunctionCall { callee: Box<Postfix>, left_paren: Token, arguments: Vec<Expression>, right_paren: Token },
    PropertyGet { object: Box<Postfix>, dot_token: Token, optional_chain_token: Option<Token>, name: Token },
    Item(Box<Primary>),
}

/// One arm of a match expression: `pattern => body,`.
#[derive(Debug, PartialEq)]
pub struct MatchArm {
    pub pattern: MatchPattern,
    pub arrow_token: Token,
    pub body: Box<Expression>,
    pub comma_token: Option<Token>,
}

/// A pattern of a match arm.
#[derive(Debug, PartialEq)]
pub enum MatchPattern {
    Literal(LiteralValue),
    Identifier(Token),
    StructPattern { name: PathExpression, left_brace: Token, fields: Vec<StructPatternField>, right_brace: Token },
    EnumVariantPattern { path: PathExpression, fields: Option<EnumVariantPatternFields> },
}

/// A field of a struct pattern: `name` or `name: pattern`.
#[derive(Debug, PartialEq)]
pub struct StructPatternField {
    pub field_name: Token,
    pub colon_and_pattern: Option<(Token, Box<MatchPattern>)>,
}

/// The data of an enum variant pattern, with its brackets.
#[derive(Debug, PartialEq)]
pub enum EnumVariantPatternFields {
    Tuple(Token, Vec<MatchPattern>, Token),
    Struct(Token, Vec<StructPatternField>, Token),
}

/// A field of a struct literal: `name: value`.
#[derive(Debug, PartialEq)]
pub struct StructLiteralField {
    pub name: Token,
    pub colon_token: Token,
    pub value: Box<Expression>,
}

/// A primary expression.
#[derive(Debug, PartialEq)]
pub enum Primary {
    Literal(LiteralValue),
    Identifier(Token),
    Grouping { left_paren: Token, expression: Box<Expression>, right_paren: Token },
    StructLiteral { name: Token, left_brace: Token, fields: Vec<StructLiteralField>, right_brace: Token },
    EnumPath(PathExpression),
    MatchExpr { match_token: Token, expression: Box<Expression>, left_brace: Token, arms: Vec<MatchArm>, right_brace: Token },
    Lambda {
        fn_token: Token,
        params: Vec<Parameter>,
        return_type_arrow: Option<Token>,
        return_type: Option<TypeAnnotation>,
        body_expr: Box<Expression>,
    },
}

} // verus!

use lib::abstract_syntax_tree::ast;
use lib::analysis::{analyze, Analysis};
use lib::lexical::keywords::Keywords;
use lib::lexical::scanner::Scanner;
use lib::lexical::token::Token;
use lib::lexical::token_type::{LiteralValue, TokenType};
use lib::parser::parser::{ParseError, Parser};
use lib::throw::Error;

fn tokens_of(src: &str) -> Vec<Token> {
    let mut scanner = Scanner::new(src, Error::new(), Keywords::new());
    let tokens = scanner.run().clone();
    assert!(!scanner.reporter().has_error_occurred());
    tokens
}

fn parse(src: &str) -> Result<ast::Program, Vec<ParseError>> {
    let mut parser = Parser::new(tokens_of(src));
    parser.parse_program()
}

fn parse_ok(src: &str) -> ast::Program {
    match parse(src) {
        Ok(p) => p,
        Err(es) => panic!("unexpected errors: {:?}", es),
    }
}

fn parse_errors(src: &str) -> Vec<ParseError> {
    match parse(src) {
        Ok(p) => panic!("unexpected success: {:?}", p),
        Err(es) => es,
    }
}

fn unary_of(e: &ast::Expression) -> &ast::Unary {
    match e {
        ast::Expression::LogicalOr(o) => match &**o {
            ast::LogicalOr::Next(a) => match &**a {
                ast::LogicalAnd::Next(q) => match &**q {
                    ast::Equality::Next(c) => match &**c {
                        ast::Comparison::Next(t) => match &**t {
                            ast::Term::Next(f) => match &**f {
                                ast::Factor::Next(u) => &**u,
                                other => panic!("not a plain factor: {:?}", other),
                            },
                            other => panic!("not a plain term: {:?}", other),
                        },
                        other => panic!("not a plain comparison: {:?}", other),
                    },
                    other => panic!("not a plain equality: {:?}", other),
                },
                other => panic!("not a plain and: {:?}", other),
            },
            other => panic!("not a plain or: {:?}", other),
        },
        other => panic!("not a logical expression: {:?}", other),
    }
}

fn postfix_of(e: &ast::Expression) -> &ast::Postfix {
    match unary_of(e) {
        ast::Unary::Next(p) => &**p,
        other => panic!("not a postfix: {:?}", other),
    }
}

fn primary_of(e: &ast::Expression) -> &ast::Primary {
    match postfix_of(e) {
        ast::Postfix::Item(p) => &**p,
        other => panic!("not a primary: {:?}", other),
    }
}

fn term_of(e: &ast::Expression) -> &ast::Term {
    match e {
        ast::Expression::LogicalOr(o) => match &**o {
            ast::LogicalOr::Next(a) => match &**a {
                ast::LogicalAnd::Next(q) => match &**q {
                    ast::Equality::Next(c) => match &**c {
                        ast::Comparison::Next(t) => &**t,
                        other => panic!("not a plain comparison: {:?}", other),
                    },
                    other => panic!("not a plain equality: {:?}", other),
                },
                other => panic!("not a plain and: {:?}", other),
            },
            other => panic!("not a plain or: {:?}", other),
        },
        other => panic!("not a logical expression: {:?}", other),
    }
}

fn expr_stmt(s: &ast::Stmt) -> &ast::Expression {
    match s {
        ast::Stmt::ExpressionStmt(e) => &**e,
        other => panic!("not an expression statement: {:?}", other),
    }
}

#[test]
fn empty_program() {
    assert!(parse_ok("").is_empty());
    assert!(parse_ok("  // only a comment\n").is_empty());
}

#[test]
fn let_with_type_and_initializer() {
    let program = parse_ok("let x: Int? = 1;");
    assert_eq!(program.len(), 1);
    match &program[0] {
        ast::Stmt::LetDecl { annotations, let_token, name, type_ann, initializer } => {
            assert!(annotations.is_empty());
            assert_eq!(let_token.token_type, TokenType::Let);
            assert_eq!(name.lexeme, "x");
            let t = type_ann.as_ref().unwrap();
            assert_eq!(t.name.segments.len(), 1);
            assert_eq!(t.name.segments[0].lexeme, "Int");
            assert!(t.is_optional);
            let init = initializer.as_ref().unwrap();
            assert_eq!(primary_of(init), &ast::Primary::Literal(LiteralValue::Integer(1)));
        },
        other => panic!("unexpected statement {:?}", other),
    }
}

#[test]
fn let_without_initializer() {
    let program = parse_ok("let y;");
    match &program[0] {
        ast::Stmt::LetDecl { type_ann, initializer, .. } => {
            assert!(type_ann.is_none());
            assert!(initializer.is_none());
        },
        other => panic!("unexpected statement {:?}", other),
    }
}

#[test]
fn multiplication_binds_tighter_than_addition() {
    let program = parse_ok("1 + 2 * 3;");
    match term_of(expr_stmt(&program[0])) {
        ast::Term::Binary { left, operator, right } => {
            assert_eq!(operator.token_type, TokenType::Plus);
            assert!(matches!(&**left, ast::Factor::Next(_)));
            match &**right {
                ast::Factor::Binary { operator, .. } => assert_eq!(operator.token_type, TokenType::Star),
                other => panic!("expected a product, got {:?}", other),
            }
        },
        other => panic!("expected a sum, got {:?}", other),
    }
}

#[test]
fn comparison_and_logic_levels() {
    let program = parse_ok("a < b and c == d or !e;");
    match expr_stmt(&program[0]) {
        ast::Expression::LogicalOr(o) => match &**o {
            ast::LogicalOr::Binary { left, operator, right } => {
                assert_eq!(operator.token_type, TokenType::Or);
                match &**left {
                    ast::LogicalAnd::Binary { left, operator, right } => {
                        assert_eq!(operator.token_type, TokenType::And);
                        match &**left {
                            ast::Equality::Next(c) => assert!(matches!(&**c, ast::Comparison::Binary { .. })),
                            other => panic!("{:?}", other),
                        }
                        assert!(matches!(&**right, ast::Equality::Binary { .. }));
                    },
                    other => panic!("{:?}", other),
                }
                assert!(matches!(&**right, ast::LogicalAnd::Next(_)));
            },
            other => panic!("{:?}", other),
        },
        other => panic!("{:?}", other),
    }
}

#[test]
fn chained_prefix_operators() {
    let program = parse_ok("- -x;");
    match unary_of(expr_stmt(&program[0])) {
        ast::Unary::Prefixed { operator, operand } => {
            assert_eq!(operator.token_type, TokenType::Minus);
            assert!(matches!(&**operand, ast::Unary::Prefixed { .. }));
        },
        other => panic!("{:?}", other),
    }
}

#[test]
fn assignment_is_right_associative() {
    let program = parse_ok("a = b = 1;");
    match expr_stmt(&program[0]) {
        ast::Expression::Assign { target, equals_token, value } => {
            assert_eq!(equals_token.token_type, TokenType::Equal);
            match &**target {
                ast::Postfix::Item(p) => match &**p {
                    ast::Primary::Identifier(t) => assert_eq!(t.lexeme, "a"),
                    other => panic!("{:?}", other),
                },
                other => panic!("{:?}", other),
            }
            assert!(matches!(&**value, ast::Expression::Assign { .. }));
        },
        other => panic!("{:?}", other),
    }
}

#[test]
fn assignment_to_dotted_path_and_property() {
    let program = parse_ok("a.b = 2; (a).c = 3;");
    match expr_stmt(&program[0]) {
        ast::Expression::Assign { target, .. } => match &**target {
            ast::Postfix::Item(p) => match &**p {
                ast::Primary::EnumPath(path) => assert_eq!(path.segments.len(), 2),
                other => panic!("{:?}", other),
            },
            other => panic!("{:?}", other),
        },
        other => panic!("{:?}", other),
    }
    match expr_stmt(&program[1]) {
        ast::Expression::Assign { target, .. } => assert!(matches!(&**target, ast::Postfix::PropertyGet { .. })),
        other => panic!("{:?}", other),
    }
}

#[test]
fn invalid_assignment_target() {
    let errors = parse_errors("1 + 2 = 3;");
    assert_eq!(errors.len(), 1);
    assert_eq!(errors[0].message, "Invalid assignment target. Expected an identifier or property access.");
    assert_eq!(errors[0].token.as_ref().unwrap().token_type, TokenType::Equal);
    assert_eq!(errors[0].line, 1);
}

#[test]
fn calls_and_property_access() {
    let program = parse_ok("a.b(1, 2,)(c).d;");
    match postfix_of(expr_stmt(&program[0])) {
        ast::Postfix::PropertyGet { object, name, optional_chain_token, .. } => {
            assert_eq!(name.lexeme, "d");
            assert!(optional_chain_token.is_none());
            match &**object {
                ast::Postfix::FunctionCall { callee, arguments, .. } => {
                    assert_eq!(arguments.len(), 1);
                    match &**callee {
                        ast::Postfix::FunctionCall { callee, arguments, .. } => {
                            assert_eq!(arguments.len(), 2);
                            match &**callee {
                                ast::Postfix::Item(p) => match &**p {
                                    ast::Primary::EnumPath(path) => assert_eq!(path.segments.len(), 2),
                                    other => panic!("{:?}", other),
                                },
                                other => panic!("{:?}", other),
                            }
                        },
                        other => panic!("{:?}", other),
                    }
                },
                other => panic!("{:?}", other),
            }
        },
        other => panic!("{:?}", other),
    }
}

#[test]
fn paths_groupings_and_literals() {
    let program = parse_ok("Color::Red; a.b; (x); \"s\"; true; false; null; 2.5;");
    match primary_of(expr_stmt(&program[0])) {
        ast::Primary::EnumPath(p) => {
            let names: Vec<&str> = p.segments.iter().map(|t| t.lexeme.as_str()).collect();
            assert_eq!(names, vec!["Color", "Red"]);
        },
        other => panic!("{:?}", other),
    }
    match primary_of(expr_stmt(&program[1])) {
        ast::Primary::EnumPath(p) => assert_eq!(p.segments.len(), 2),
        other => panic!("{:?}", other),
    }
    assert!(matches!(primary_of(expr_stmt(&program[2])), ast::Primary::Grouping { .. }));
    assert_eq!(primary_of(expr_stmt(&program[3])), &ast::Primary::Literal(LiteralValue::String("s".to_string())));
    assert_eq!(primary_of(expr_stmt(&program[4])), &ast::Primary::Literal(LiteralValue::Boolean(true)));
    assert_eq!(primary_of(expr_stmt(&program[5])), &ast::Primary::Literal(LiteralValue::Boolean(false)));
    assert_eq!(primary_of(expr_stmt(&program[6])), &ast::Primary::Literal(LiteralValue::Null));
    assert_eq!(primary_of(expr_stmt(&program[7])), &ast::Primary::Literal(LiteralValue::Float("2.5".to_string())));
}

#[test]
fn struct_literal() {
    let program = parse_ok("Point { x: 1, y: 2, };");
    match primary_of(expr_stmt(&program[0])) {
        ast::Primary::StructLiteral { name, fields, .. } => {
            assert_eq!(name.lexeme, "Point");
            let names: Vec<&str> = fields.iter().map(|f| f.name.lexeme.as_str()).collect();
            assert_eq!(names, vec!["x", "y"]);
        },
        other => panic!("{:?}", other),
    }
}

#[test]
fn function_declaration() {
    let program = parse_ok("async fn add(a: Int, @unused b,) -> Int { return a + b; }");
    match &program[0] {
        ast::Stmt::FunctionDecl { async_token, name, params, return_type_arrow, return_type, body, .. } => {
            assert!(async_token.is_some());
            assert_eq!(name.lexeme, "add");
            assert_eq!(params.len(), 2);
            assert_eq!(params[0].name.lexeme, "a");
            assert!(params[0].type_ann.is_some());
            assert_eq!(params[1].annotations.len(), 1);
            assert!(params[1].colon_token.is_none());
            assert!(return_type_arrow.is_some());
            assert_eq!(return_type.as_ref().unwrap().name.segments[0].lexeme, "Int");
            assert_eq!(body.len(), 1);
            match &body[0] {
                ast::Stmt::ReturnStmt { value, .. } => assert!(value.is_some()),
                other => panic!("{:?}", other),
            }
        },
        other => panic!("{:?}", other),
    }
}

#[test]
fn struct_declaration() {
    let program = parse_ok("@derive(Debug) struct P { @x a: Int, b: Str?, }");
    match &program[0] {
        ast::Stmt::StructDecl { annotations, name, fields, .. } => {
            assert_eq!(annotations.len(), 1);
            assert_eq!(annotations[0].arguments.as_ref().unwrap().len(), 1);
            assert_eq!(name.lexeme, "P");
            assert_eq!(fields.len(), 2);
            assert_eq!(fields[0].annotations.len(), 1);
            assert!(fields[1].type_ann.is_optional);
        },
        other => panic!("{:?}", other),
    }
}

#[test]
fn enum_declaration() {
    let program = parse_ok("enum Shape { Unit, Circle(Float), Rect { w: Int, h: Int }, }");
    match &program[0] {
        ast::Stmt::EnumDecl { name, variants, .. } => {
            assert_eq!(name.lexeme, "Shape");
            assert_eq!(variants.len(), 3);
            assert!(variants[0].fields.is_none());
            match variants[1].fields.as_ref().unwrap() {
                ast::VariantFields::Tuple(_, types, _) => assert_eq!(types.len(), 1),
                other => panic!("{:?}", other),
            }
            match variants[2].fields.as_ref().unwrap() {
                ast::VariantFields::Struct(_, fields, _) => assert_eq!(fields.len(), 2),
                other => panic!("{:?}", other),
            }
        },
        other => panic!("{:?}", other),
    }
}

#[test]
fn control_flow_statements() {
    let program = parse_ok(
        "if (a) { b; } else if c d; else { e; }\nwhile x y();\nfor i in (items) { print(i); }\nreturn;\n{ let z = 1; }",
    );
    assert_eq!(program.len(), 5);
    match &program[0] {
        ast::Stmt::IfStmt { else_if_branches, else_branch, then_branch, .. } => {
            assert!(matches!(&**then_branch, ast::Stmt::Block { .. }));
            assert_eq!(else_if_branches.len(), 1);
            assert!(else_branch.is_some());
        },
        other => panic!("{:?}", other),
    }
    assert!(matches!(&program[1], ast::Stmt::WhileStmt { .. }));
    match &program[2] {
        ast::Stmt::ForStmt { variable, .. } => assert_eq!(variable.lexeme, "i"),
        other => panic!("{:?}", other),
    }
    match &program[3] {
        ast::Stmt::ReturnStmt { value, .. } => assert!(value.is_none()),
        other => panic!("{:?}", other),
    }
    match &program[4] {
        ast::Stmt::Block { statements, .. } => assert_eq!(statements.len(), 1),
        other => panic!("{:?}", other),
    }
}

#[test]
fn match_expression_with_patterns() {
    let program = parse_ok(
        "let r = match (v) { 1 => a, \"s\" => b, true => c, n => d, P { x, y: 2 } => e, E::V(p, q) => f, E::W => g };",
    );
    match &program[0] {
        ast::Stmt::LetDecl { initializer, .. } => match primary_of(initializer.as_ref().unwrap()) {
            ast::Primary::MatchExpr { arms, .. } => {
                assert_eq!(arms.len(), 7);
                assert_eq!(arms[0].pattern, ast::MatchPattern::Literal(LiteralValue::Integer(1)));
                assert!(arms[0].comma_token.is_some());
                assert!(matches!(&arms[3].pattern, ast::MatchPattern::Identifier(_)));
                match &arms[4].pattern {
                    ast::MatchPattern::StructPattern { fields, .. } => {
                        assert_eq!(fields.len(), 2);
                        assert!(fields[0].colon_and_pattern.is_none());
                        assert!(fields[1].colon_and_pattern.is_some());
                    },
                    other => panic!("{:?}", other),
                }
                assert!(matches!(&arms[5].pattern, ast::MatchPattern::EnumVariantPattern { fields: Some(_), .. }));
                assert!(matches!(&arms[6].pattern, ast::MatchPattern::EnumVariantPattern { fields: None, .. }));
                assert!(arms[6].comma_token.is_none());
            },
            other => panic!("{:?}", other),
        },
        other => panic!("{:?}", other),
    }
}

#[test]
fn match_arms_need_separators() {
    let errors = parse_errors("match (v) { 1 => a 2 => b };");
    assert_eq!(errors[0].message, "Expect ',' or '}' after match arm.");
    assert_eq!(errors[0].token.as_ref().unwrap().lexeme, "2");
}

#[test]
fn annotation_forms() {
    let program = parse_ok("@a @b::c(1, 2) @d = 3 let x;");
    match &program[0] {
        ast::Stmt::LetDecl { annotations, .. } => {
            assert_eq!(annotations.len(), 3);
            assert!(annotations[0].arguments.is_none());
            assert_eq!(annotations[1].name.segments.len(), 2);
            assert_eq!(annotations[1].arguments.as_ref().unwrap().len(), 2);
            assert_eq!(annotations[2].arguments.as_ref().unwrap().len(), 1);
        },
        other => panic!("{:?}", other),
    }
}

#[test]
fn missing_semicolon_is_reported_at_the_end() {
    let errors = parse_errors("let x = 1");
    assert_eq!(errors.len(), 1);
    assert_eq!(errors[0].message, "Expect ';' after variable declaration.");
    assert_eq!(errors[0].token.as_ref().unwrap().token_type, TokenType::EndOfFile);
}

#[test]
fn missing_expression() {
    let errors = parse_errors(";");
    assert_eq!(errors.len(), 1);
    assert_eq!(errors[0].message, "Expect expression.");
    assert_eq!(errors[0].token.as_ref().unwrap().token_type, TokenType::Semicolon);
}

#[test]
fn async_must_precede_fn() {
    let errors = parse_errors("async let x;");
    assert_eq!(errors[0].message, "Expect 'fn' after 'async'.");
    assert_eq!(errors[0].token.as_ref().unwrap().token_type, TokenType::Async);
}

#[test]
fn annotations_need_a_declaration() {
    let errors = parse_errors("@a 1;");
    assert_eq!(errors[0].message, "Expected declaration after annotations.");
    assert_eq!(errors[0].token.as_ref().unwrap().token_type, TokenType::At);
}

#[test]
fn recovery_reports_every_error_in_order() {
    let errors = parse_errors("let = 1;\nlet ok = 2;\nfoo(;\nlet 3;");
    let messages: Vec<&str> = errors.iter().map(|e| e.message.as_str()).collect();
    assert_eq!(messages, vec!["Expect variable name.", "Expect expression.", "Expect variable name."]);
    let lines: Vec<usize> = errors.iter().map(|e| e.line).collect();
    assert_eq!(lines, vec![1, 3, 4]);
}

#[test]
fn parser_built_by_hand_needs_only_an_end_marker() {
    let tokens = vec![
        Token::new(TokenType::Identifier, None, "x", 1),
        Token::new(TokenType::Semicolon, None, ";", 1),
        Token::new(TokenType::EndOfFile, None, "", 1),
    ];
    let mut parser = Parser::new(tokens);
    let program = parser.parse_program().unwrap();
    match primary_of(expr_stmt(&program[0])) {
        ast::Primary::Identifier(t) => assert_eq!(t.lexeme, "x"),
        other => panic!("{:?}", other),
    }
}

#[test]
fn tokens_after_an_early_end_marker_are_not_read() {
    let tokens = vec![
        Token::new(TokenType::EndOfFile, None, "", 1),
        Token::new(TokenType::Semicolon, None, ";", 1),
    ];
    let mut parser = Parser::new(tokens);
    assert!(parser.parse_program().unwrap().is_empty());
}

#[test]
fn bare_conditions_end_before_the_body() {
    let program = parse_ok("if x {} else {}");
    assert_eq!(program.len(), 1);
    match &program[0] {
        ast::Stmt::IfStmt { condition, then_branch, else_if_branches, else_branch, .. } => {
            match primary_of(condition) {
                ast::Primary::Identifier(t) => assert_eq!(t.lexeme, "x"),
                other => panic!("{:?}", other),
            }
            assert!(matches!(&**then_branch, ast::Stmt::Block { statements, .. } if statements.is_empty()));
            assert!(else_if_branches.is_empty());
            assert!(matches!(&else_branch.as_ref().unwrap().branch.as_ref(), ast::Stmt::Block { .. }));
        },
        other => panic!("{:?}", other),
    }
    let program = parse_ok("if a { b; } else if c { d; }\nwhile w { }\nfor i in xs { }\nmatch v { 1 => a };");
    assert_eq!(program.len(), 4);
    match &program[0] {
        ast::Stmt::IfStmt { else_if_branches, .. } => assert_eq!(else_if_branches.len(), 1),
        other => panic!("{:?}", other),
    }
    assert!(matches!(&program[1], ast::Stmt::WhileStmt { .. }));
    assert!(matches!(&program[2], ast::Stmt::ForStmt { .. }));
    match primary_of(expr_stmt(&program[3])) {
        ast::Primary::MatchExpr { arms, .. } => assert_eq!(arms.len(), 1),
        other => panic!("{:?}", other),
    }
}

#[test]
fn struct_literals_return_inside_parentheses_and_bodies() {
    let program = parse_ok("if (P { a: 1 }) { let q = Q { b: 2 }; }");
    match &program[0] {
        ast::Stmt::IfStmt { condition, then_branch, .. } => {
            match primary_of(condition) {
                ast::Primary::Grouping { expression, .. } => {
                    assert!(matches!(primary_of(expression), ast::Primary::StructLiteral { .. }))
                },
                other => panic!("{:?}", other),
            }
            match &**then_branch {
                ast::Stmt::Block { statements, .. } => match &statements[0] {
                    ast::Stmt::LetDecl { initializer, .. } => assert!(matches!(
                        primary_of(initializer.as_ref().unwrap()),
                        ast::Primary::StructLiteral { .. }
                    )),
                    other => panic!("{:?}", other),
                },
                other => panic!("{:?}", other),
            }
        },
        other => panic!("{:?}", other),
    }
}

#[test]
fn any_scanned_text_can_be_parsed() {
    for src in ["", "$$$", "fn", "let x = ;", "}}}", "match", "@", "a.b.c(", "\"open"] {
        let mut scanner = Scanner::new(src, Error::new(), Keywords::new());
        let tokens = scanner.run().clone();
        let mut parser = Parser::new(tokens);
        match parser.parse_program() {
            Ok(program) => assert!(program.is_empty() || !src.is_empty()),
            Err(errors) => assert!(!errors.is_empty()),
        }
    }
}

#[test]
fn first_error_of_each_kind() {
    let cases: Vec<(&str, &str, &str)> = vec![
        ("struct P { a: Int b: Int }", "Expect ',' or '}' after field declaration.", "b"),
        ("struct { }", "Expect struct name.", "{"),
        ("struct P a", "Expect '{' before struct fields.", "a"),
        ("struct P { 1 }", "Expect field name.", "1"),
        ("struct P { a Int }", "Expect ':' after field name.", "Int"),
        ("struct P { a: Int", "Expect ',' or '}' after field declaration.", ""),
        ("struct P { a: Int,", "Expect '}' after struct fields.", ""),
        ("enum E { A B }", "Expect ',' or '}' after enum variant.", "B"),
        ("enum E { A { x: I y: I } }", "Expect ',' or '}' after struct variant field.", "y"),
        ("enum E { A(I J) }", "Expect ')' after tuple variant types.", "J"),
        ("enum E { A { 1 } }", "Expect field name in struct variant.", "1"),
        ("enum E { A { x: I }", "Expect ',' or '}' after enum variant.", ""),
        ("enum E { A,", "Expect '}' after enum variants.", ""),
        ("enum { }", "Expect enum name.", "{"),
        ("enum E A", "Expect '{' before enum variants.", "A"),
        ("enum E { 1 }", "Expect variant name.", "1"),
        ("fn (", "Expect function name.", "("),
        ("fn f {", "Expect '(' after function name.", "{"),
        ("fn f(a b) {}", "Expect ')' after parameters.", "b"),
        ("fn f(1) {}", "Expect parameter name.", "1"),
        ("fn f() -> 1 {}", "Expect identifier for path segment.", "1"),
        ("fn f() x", "Expect '{' before function body.", "x"),
        ("fn f() { let a;", "Expect '}' after function body.", ""),
        ("for 1 in x y;", "Expect variable name in for loop.", "1"),
        ("for x y z;", "Expect 'in' keyword in for loop.", "y"),
        ("a(1;", "Expect ')' after arguments.", ";"),
        ("(a).;", "Expect property name after '.'", ";"),
        ("(1;", "Expect ')' after expression.", ";"),
        ("a::;", "Expect identifier after '::' or '.'.", ";"),
        ("{ let x;", "Expect '}' after block.", ""),
        ("return 1", "Expect ';' after return value.", ""),
        ("x", "Expect ';' after expression.", ""),
        ("@a(1 let x;", "Expect ')' after annotation arguments.", "let"),
        ("@1 let x;", "Expect identifier for path segment.", "1"),
        ("P { a 1 };", "Expect ':' after field name in struct literal.", "1"),
        ("P { 1 };", "Expect field name in struct literal.", "1"),
        ("P { a: 1 ;", "Expect '}' after struct literal fields.", ";"),
        ("match (x) { + => 1 };", "Unsupported match pattern.", "+"),
        ("match (x) { 1 2 };", "Expect '=>' after match pattern.", "2"),
        ("match (x) x", "Expect '{' after match expression.", "x"),
        ("match (x) { 1 => 2", "Expect ',' or '}' after match arm.", ""),
        ("match (x) { 1 => 2,", "Expect '}' after match arms.", ""),
        ("match (x) { P { 1 } => 2 };", "Expect field name in struct pattern.", "1"),
        ("match (x) { P { a => 2 };", "Expect '}' after struct pattern fields.", "=>"),
        ("match (x) { E::V(1 2) => 3 };", "Expect ')' after enum variant pattern fields.", "2"),
        ("let x: 1;", "Expect identifier for path segment.", "1"),
    ];
    for (src, message, lexeme) in cases {
        let errors = parse_errors(src);
        assert_eq!(errors[0].message, message, "for {:?}", src);
        assert_eq!(errors[0].token.as_ref().unwrap().lexeme, lexeme, "for {:?}", src);
    }
}

#[test]
fn analysis_of_clean_and_faulty_text() {
    match analyze("let a = 1; a = a + 1;") {
        Analysis::Parsed { tokens, result } => {
            assert_eq!(tokens.len(), 12);
            assert_eq!(result.unwrap().len(), 2);
        },
        Analysis::LexicalErrors { report } => panic!("unexpected: {}", report),
    }
    match analyze("let a = $;\n\"open") {
        Analysis::LexicalErrors { report } => assert_eq!(
            report,
            "[Line 1] Error: Unexpected character: '$'\n[Line 2] Error: Unterminated string.\n"
        ),
        Analysis::Parsed { .. } => panic!("the scan should have failed"),
    }
    match analyze("let = 1;") {
        Analysis::Parsed { result, .. } => {
            let errors = result.unwrap_err();
            assert_eq!(errors.len(), 1);
            assert_eq!(errors[0].message, "Expect variable name.");
        },
        Analysis::LexicalErrors { report } => panic!("unexpected: {}", report),
    }
}

#[test]
fn cloned_trees_are_equal() {
    let program = parse_ok(
        "@a(1) async fn f(x: T?, y) -> R { let z: Q = -x * (y + 1); if (z) { return z; } else if (w) {} else { z = z; } }\n\
         struct S { @f a: A, b: B }\nenum E { A, B(C, D), F { g: G } }\n\
         while a < b or c and !d a.b(1, 2).c;\nfor i in (xs) { P { q: 1 }; }\n\
         let m = match (v) { 1 => a, P { x, y: 2 } => b, E::V(p, q) => c, E::W => d, n => e };",
    );
    assert_eq!(program.len(), 6);
    for stmt in &program {
        let copy = stmt.clone();
        assert_eq!(&copy, stmt);
    }
    let errors = parse_errors(";");
    assert_eq!(errors[0].clone().message, errors[0].message);
}

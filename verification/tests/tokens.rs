use lib::lexical::token::Token;
use lib::lexical::token_type::{LiteralValue, TokenType};
use lib::parse::parser::Parser as CursorState;

#[test]
fn token_new_keeps_its_parts() {
    let t = Token::new(TokenType::Number, Some(LiteralValue::Integer(42)), "42", 9);
    assert_eq!(t.token_type, TokenType::Number);
    assert_eq!(t.literal, Some(LiteralValue::Integer(42)));
    assert_eq!(t.lexeme, "42");
    assert_eq!(t.line, 9);
}

#[test]
fn token_clone_is_equal() {
    let t = Token::new(TokenType::String, Some(LiteralValue::String("a b".to_string())), "\"a b\"", 2);
    let c = t.clone();
    assert_eq!(c, t);
    let f = LiteralValue::Float("0.25".to_string());
    assert_eq!(f.clone(), f);
}

#[test]
fn default_token_kind_is_end_of_file() {
    assert_eq!(TokenType::default(), TokenType::EndOfFile);
}

#[test]
fn cursor_state_can_be_made() {
    let tokens = vec![Token::new(TokenType::EndOfFile, None, "", 1)];
    let _state = CursorState::new(tokens);
    let _empty = CursorState::default();
}

#[test]
fn debug_text_of_tokens() {
    let t = Token::new(TokenType::Number, Some(LiteralValue::Integer(42)), "42", 9);
    assert_eq!(t.debug_text(), "Token { line:   9, type: Number        , lexeme: \"42\", literal: 42 }");
    let t = Token::new(TokenType::String, Some(LiteralValue::String("hi".to_string())), "\"hi\"", 12);
    assert_eq!(t.debug_text(), "Token { line:  12, type: String        , lexeme: \"\"hi\"\", literal: \"hi\" }");
    let t = Token::new(TokenType::EndOfFile, None, "", 12345);
    assert_eq!(t.debug_text(), "Token { line: 12345, type: EndOfFile     , lexeme: \"\" }");
    let t = Token::new(TokenType::GreaterEqual, None, ">=", 1);
    assert_eq!(t.debug_text(), "Token { line:   1, type: GreaterEqual  , lexeme: \">=\" }");
}

#[test]
fn debug_text_of_literals() {
    let cases = vec![
        (LiteralValue::Integer(-5), "-5"),
        (LiteralValue::Integer(i64::MIN), "-9223372036854775808"),
        (LiteralValue::Float("2.50".to_string()), "2.50"),
        (LiteralValue::Boolean(true), "true"),
        (LiteralValue::Boolean(false), "false"),
        (LiteralValue::Null, "null"),
    ];
    for (value, text) in cases {
        let mut out = String::from("> ");
        value.push_debug_text(&mut out);
        assert_eq!(out, format!("> {}", text));
    }
}

#[test]
fn kind_names() {
    assert_eq!(TokenType::LeftParen.name(), "LeftParen");
    assert_eq!(TokenType::DoubleColon.name(), "DoubleColon");
    assert_eq!(TokenType::While.name(), "While");
    assert_eq!(TokenType::EndOfFile.name(), "EndOfFile");
}

use lib::lexical::keywords::Keywords;
use lib::lexical::scanner::Scanner;
use lib::lexical::token::Token;
use lib::lexical::token_type::{LiteralValue, TokenType};
use lib::throw::Error;

fn scan(src: &str) -> (Vec<Token>, Vec<String>) {
    let mut scanner = Scanner::new(src, Error::new(), Keywords::new());
    let tokens = scanner.run().clone();
    let errors = scanner.reporter().get_errors().clone();
    (tokens, errors)
}

fn kinds(tokens: &[Token]) -> Vec<TokenType> {
    tokens.iter().map(|t| t.token_type).collect()
}

#[test]
fn empty_source_gives_only_end_of_file() {
    let (tokens, errors) = scan("");
    assert_eq!(tokens.len(), 1);
    assert_eq!(tokens[0].token_type, TokenType::EndOfFile);
    assert_eq!(tokens[0].lexeme, "");
    assert_eq!(tokens[0].literal, None);
    assert_eq!(tokens[0].line, 1);
    assert!(errors.is_empty());
}

#[test]
fn single_character_tokens() {
    let (tokens, errors) = scan("(){},.;+*@#?");
    assert_eq!(
        kinds(&tokens),
        vec![
            TokenType::LeftParen,
            TokenType::RightParen,
            TokenType::LeftBrace,
            TokenType::RightBrace,
            TokenType::Comma,
            TokenType::Dot,
            TokenType::Semicolon,
            TokenType::Plus,
            TokenType::Star,
            TokenType::At,
            TokenType::Hash,
            TokenType::Question,
            TokenType::EndOfFile,
        ]
    );
    assert_eq!(tokens[0].lexeme, "(");
    assert_eq!(tokens[11].lexeme, "?");
    assert!(errors.is_empty());
}

#[test]
fn one_and_two_character_operators() {
    let (tokens, errors) = scan(":: : -> - != ! == => = <= < >= > /");
    assert_eq!(
        kinds(&tokens),
        vec![
            TokenType::DoubleColon,
            TokenType::Colon,
            TokenType::Arrow,
            TokenType::Minus,
            TokenType::BangEqual,
            TokenType::Bang,
            TokenType::EqualEqual,
            TokenType::FatArrow,
            TokenType::Equal,
            TokenType::LessEqual,
            TokenType::Less,
            TokenType::GreaterEqual,
            TokenType::Greater,
            TokenType::Slash,
            TokenType::EndOfFile,
        ]
    );
    let lexemes: Vec<&str> = tokens.iter().map(|t| t.lexeme.as_str()).collect();
    assert_eq!(lexemes, vec!["::", ":", "->", "-", "!=", "!", "==", "=>", "=", "<=", "<", ">=", ">", "/", ""]);
    assert!(errors.is_empty());
}

#[test]
fn adjacent_operators_take_the_longest_match() {
    let (tokens, _) = scan("===>");
    assert_eq!(kinds(&tokens), vec![TokenType::EqualEqual, TokenType::FatArrow, TokenType::EndOfFile]);
}

#[test]
fn integer_and_float_literals() {
    let (tokens, errors) = scan("123 4.5 0");
    assert_eq!(kinds(&tokens), vec![TokenType::Number, TokenType::Number, TokenType::Number, TokenType::EndOfFile]);
    assert_eq!(tokens[0].literal, Some(LiteralValue::Integer(123)));
    assert_eq!(tokens[0].lexeme, "123");
    assert_eq!(tokens[1].literal, Some(LiteralValue::Float("4.5".to_string())));
    assert_eq!(tokens[1].lexeme, "4.5");
    assert_eq!(tokens[2].literal, Some(LiteralValue::Integer(0)));
    assert!(errors.is_empty());
}

#[test]
fn dot_without_digit_is_not_part_of_a_number() {
    let (tokens, _) = scan("7.x");
    assert_eq!(kinds(&tokens), vec![TokenType::Number, TokenType::Dot, TokenType::Identifier, TokenType::EndOfFile]);
    assert_eq!(tokens[0].literal, Some(LiteralValue::Integer(7)));
}

#[test]
fn largest_integer_is_accepted() {
    let (tokens, errors) = scan("9223372036854775807");
    assert_eq!(tokens[0].literal, Some(LiteralValue::Integer(i64::MAX)));
    assert!(errors.is_empty());
}

#[test]
fn integer_too_large_is_reported() {
    let (tokens, errors) = scan("9223372036854775808");
    assert_eq!(kinds(&tokens), vec![TokenType::EndOfFile]);
    assert_eq!(errors, vec!["[Line 1] Error: Invalid integer number: '9223372036854775808'".to_string()]);
}

#[test]
fn string_literal() {
    let (tokens, errors) = scan("\"hello world\"");
    assert_eq!(kinds(&tokens), vec![TokenType::String, TokenType::EndOfFile]);
    assert_eq!(tokens[0].lexeme, "\"hello world\"");
    assert_eq!(tokens[0].literal, Some(LiteralValue::String("hello world".to_string())));
    assert!(errors.is_empty());
}

#[test]
fn empty_string_literal() {
    let (tokens, _) = scan("\"\"");
    assert_eq!(tokens[0].literal, Some(LiteralValue::String(String::new())));
    assert_eq!(tokens[0].lexeme, "\"\"");
}

#[test]
fn string_spanning_lines_counts_them() {
    let (tokens, errors) = scan("\"a\nb\" x");
    assert_eq!(kinds(&tokens), vec![TokenType::String, TokenType::Identifier, TokenType::EndOfFile]);
    assert_eq!(tokens[0].literal, Some(LiteralValue::String("a\nb".to_string())));
    assert_eq!(tokens[0].line, 2);
    assert_eq!(tokens[1].line, 2);
    assert!(errors.is_empty());
}

#[test]
fn unterminated_string_is_reported() {
    let (tokens, errors) = scan("\"abc\ndef");
    assert_eq!(kinds(&tokens), vec![TokenType::EndOfFile]);
    assert_eq!(errors, vec!["[Line 2] Error: Unterminated string.".to_string()]);
    assert_eq!(tokens[0].line, 2);
}

#[test]
fn every_reserved_word() {
    let (tokens, errors) =
        scan("and async await else enum false fn for if in let match null or return struct true while");
    assert_eq!(
        kinds(&tokens),
        vec![
            TokenType::And,
            TokenType::Async,
            TokenType::Await,
            TokenType::Else,
            TokenType::Enum,
            TokenType::False,
            TokenType::Fn,
            TokenType::For,
            TokenType::If,
            TokenType::In,
            TokenType::Let,
            TokenType::Match,
            TokenType::Null,
            TokenType::Or,
            TokenType::Return,
            TokenType::Struct,
            TokenType::True,
            TokenType::While,
            TokenType::EndOfFile,
        ]
    );
    assert_eq!(tokens[5].literal, Some(LiteralValue::Boolean(false)));
    assert_eq!(tokens[12].literal, Some(LiteralValue::Null));
    assert_eq!(tokens[16].literal, Some(LiteralValue::Boolean(true)));
    assert_eq!(tokens[0].literal, None);
    assert!(errors.is_empty());
}

#[test]
fn identifiers_with_underscores_and_digits() {
    let (tokens, _) = scan("_a1 iffy While x_2y");
    assert_eq!(
        kinds(&tokens),
        vec![TokenType::Identifier, TokenType::Identifier, TokenType::Identifier, TokenType::Identifier, TokenType::EndOfFile]
    );
    assert_eq!(tokens[0].lexeme, "_a1");
    assert_eq!(tokens[1].lexeme, "iffy");
    assert_eq!(tokens[3].lexeme, "x_2y");
}

#[test]
fn comments_are_skipped_and_lines_counted() {
    let (tokens, errors) = scan("// note\nx /* a\n b */ y / z");
    assert_eq!(
        kinds(&tokens),
        vec![TokenType::Identifier, TokenType::Identifier, TokenType::Slash, TokenType::Identifier, TokenType::EndOfFile]
    );
    assert_eq!(tokens[0].line, 2);
    assert_eq!(tokens[1].line, 3);
    assert_eq!(tokens[3].line, 3);
    assert!(errors.is_empty());
}

#[test]
fn unterminated_block_comment_is_reported() {
    let (tokens, errors) = scan("a /* never\nclosed");
    assert_eq!(kinds(&tokens), vec![TokenType::Identifier, TokenType::EndOfFile]);
    assert_eq!(errors, vec!["[Line 2] Error: Unterminated block comment.".to_string()]);
}

#[test]
fn unexpected_characters_are_reported_and_skipped() {
    let (tokens, errors) = scan("a $ b\n%");
    assert_eq!(kinds(&tokens), vec![TokenType::Identifier, TokenType::Identifier, TokenType::EndOfFile]);
    assert_eq!(
        errors,
        vec!["[Line 1] Error: Unexpected character: '$'".to_string(), "[Line 2] Error: Unexpected character: '%'".to_string()]
    );
}

#[test]
fn nul_character_is_ignored_only_at_the_end() {
    let (tokens, errors) = scan("a\0");
    assert_eq!(kinds(&tokens), vec![TokenType::Identifier, TokenType::EndOfFile]);
    assert!(errors.is_empty());
    let (tokens, errors) = scan("\0a");
    assert_eq!(kinds(&tokens), vec![TokenType::Identifier, TokenType::EndOfFile]);
    assert_eq!(errors, vec!["[Line 1] Error: Unexpected character: '\0'".to_string()]);
}

#[test]
fn lines_follow_line_breaks() {
    let (tokens, _) = scan("a\nb\n\nc\r\n\td\n");
    let lines: Vec<usize> = tokens.iter().map(|t| t.line).collect();
    assert_eq!(lines, vec![1, 2, 4, 5, 6]);
}

#[test]
fn non_ascii_text_inside_a_string() {
    let (tokens, errors) = scan("\"héllo\" x");
    assert_eq!(tokens[0].literal, Some(LiteralValue::String("héllo".to_string())));
    assert_eq!(tokens[1].lexeme, "x");
    assert!(errors.is_empty());
}

#[test]
fn scan_keeps_earlier_errors_first() {
    let mut log = Error::new();
    log.error(7, "earlier");
    let mut scanner = Scanner::new("$", log, Keywords::new());
    scanner.run();
    assert_eq!(
        scanner.reporter().get_errors().clone(),
        vec!["[Line 7] Error: earlier".to_string(), "[Line 1] Error: Unexpected character: '$'".to_string()]
    );
}

#[test]
fn scan_ends_with_exactly_one_end_of_file() {
    let (tokens, _) = scan("fn main() { let x = \"s\"; x = x + 1.5; } $ /* open");
    assert_eq!(tokens.last().unwrap().token_type, TokenType::EndOfFile);
    assert_eq!(tokens.iter().filter(|t| t.token_type == TokenType::EndOfFile).count(), 1);
}

#[test]
fn tokens_accessor_matches_run() {
    let mut scanner = Scanner::new("a b", Error::new(), Keywords::new());
    let from_run = scanner.run().clone();
    assert_eq!(scanner.tokens().clone(), from_run);
    assert_eq!(from_run.len(), 3);
}

#[test]
fn default_scanner_scans_nothing() {
    let mut scanner = Scanner::default();
    let tokens = scanner.run().clone();
    assert_eq!(kinds(&tokens), vec![TokenType::EndOfFile]);
    assert!(!scanner.reporter().has_error_occurred());
}

#[test]
fn token_texts_are_pieces_of_the_source() {
    let src = "let s = \"two\nlines\"; x >= 10.25 // done\n/* c */ y";
    let (tokens, _) = scan(src);
    for t in &tokens {
        assert!(src.contains(t.lexeme.as_str()), "{:?} is not in the source", t.lexeme);
    }
    assert_eq!(tokens[3].lexeme, "\"two\nlines\"");
}

#[test]
fn end_marker_is_on_the_last_line() {
    for src in ["", "a", "a\n", "\n\n\n", "\"x\ny\" /* p\nq */ // r\n s"] {
        let (tokens, _) = scan(src);
        let breaks = src.chars().filter(|c| *c == '\n').count();
        assert_eq!(tokens.last().unwrap().line, 1 + breaks, "for {:?}", src);
    }
}

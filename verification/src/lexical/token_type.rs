//! The kinds of tokens and the literal values that some tokens carry.

use vstd::prelude::*;
use crate::text::{decimal, push_decimal, push_str};

verus! {

/// The kind of a token.
#[derive(Debug, Clone, Copy, PartialEq, Eq, Structural)]
pub enum TokenType {
    // Simple punctuation
    LeftParen,
    RightParen,
    LeftBrace,
    RightBrace,
    Comma,
    Dot,
    Semicolon,
    Colon,
    Question,
    At,
    Hash,
    // Arithmetic operators
    Minus,
    Plus,
    Slash,
    Star,
    // Comparison and assignment
    Bang,
    BangEqual,
    Equal,
    EqualEqual,
    Greater,
    GreaterEqual,
    Less,
    LessEqual,
    // Arrows and path separators
    Arrow,
    FatArrow,
    DoubleColon,
    // Literals
    Identifier,
    String,
    Number,
    // Keywords
    And,
    Async,
    Await,
    Else,
    Enum,
    False,
    Fn,
    For,
    If,
    In,
    Let,
    Match,
    Null,
    Or,
    Return,
    Struct,
    True,
    While,
    // Control
    EndOfFile,
}

impl Default for TokenType {
    /// The default kind is the end-of-file marker.
    fn default() -> (r: Self)
        ensures
            r == TokenType::EndOfFile,
    {
        TokenType::EndOfFile
    }
}

/// The value of a literal token.
///
/// A floating-point literal is kept as the decimal text it was written with
/// (for example `3.14`); turning it into a binary floating-point number is
/// left to the consumer.
#[derive(Debug, PartialEq)]
pub enum LiteralValue {
    String(String),
    Integer(i64),
    Float(String),
    Boolean(bool),
    Null,
}

/// The mathematical content of a [`LiteralValue`].
pub enum LiteralView {
    Str(Seq<char>),
    Integer(i64),
    Float(Seq<char>),
    Boolean(bool),
    Null,
}

impl View for LiteralValue {
    type V = LiteralView;

    open spec fn view(&self) -> LiteralView {
        match self {
            LiteralValue::String(s) => LiteralView::Str(s@),
            LiteralValue::Integer(n) => LiteralView::Integer(*n),
            LiteralValue::Float(s) => LiteralView::Float(s@),
            LiteralValue::Boolean(b) => LiteralView::Boolean(*b),
            LiteralValue::Null => LiteralView::Null,
        }
    }
}

impl Clone for LiteralValue {
    /// A copy equal to this value.
    fn clone(&self) -> (r: Self)
        ensures
            r == *self,
    {
        match self {
            LiteralValue::String(s) => LiteralValue::String(s.clone()),
            LiteralValue::Integer(n) => LiteralValue::Integer(*n),
            LiteralValue::Float(s) => LiteralValue::Float(s.clone()),
            LiteralValue::Boolean(b) => LiteralValue::Boolean(*b),
            LiteralValue::Null => LiteralValue::Null,
        }
    }
}

/// The view of an optional literal.
pub open spec fn literal_view(l: Option<LiteralValue>) -> Option<LiteralView> {
    match l {
        Some(v) => Some(v@),
        None => None,
    }
}

/// The name of a token kind, as debugging output shows it.
pub open spec fn kind_name(t: TokenType) -> Seq<char> {
    match t {
        TokenType::LeftParen => "LeftParen"@,
        TokenType::RightParen => "RightParen"@,
        TokenType::LeftBrace => "LeftBrace"@,
        TokenType::RightBrace => "RightBrace"@,
        TokenType::Comma => "Comma"@,
        TokenType::Dot => "Dot"@,
        TokenType::Semicolon => "Semicolon"@,
        TokenType::Colon => "Colon"@,
        TokenType::Question => "Question"@,
        TokenType::At => "At"@,
        TokenType::Hash => "Hash"@,
        TokenType::Minus => "Minus"@,
        TokenType::Plus => "Plus"@,
        TokenType::Slash => "Slash"@,
        TokenType::Star => "Star"@,
        TokenType::Bang => "Bang"@,
        TokenType::BangEqual => "BangEqual"@,
        TokenType::Equal => "Equal"@,
        TokenType::EqualEqual => "EqualEqual"@,
        TokenType::Greater => "Greater"@,
        TokenType::GreaterEqual => "GreaterEqual"@,
        TokenType::Less => "Less"@,
        TokenType::LessEqual => "LessEqual"@,
        TokenType::Arrow => "Arrow"@,
        TokenType::FatArrow => "FatArrow"@,
        TokenType::DoubleColon => "DoubleColon"@,
        TokenType::Identifier => "Identifier"@,
        TokenType::String => "String"@,
        TokenType::Number => "Number"@,
        TokenType::And => "And"@,
        TokenType::Async => "Async"@,
        TokenType::Await => "Await"@,
        TokenType::Else => "Else"@,
        TokenType::Enum => "Enum"@,
        TokenType::False => "False"@,
        TokenType::Fn => "Fn"@,
        TokenType::For => "For"@,
        TokenType::If => "If"@,
        TokenType::In => "In"@,
        TokenType::Let => "Let"@,
        TokenType::Match => "Match"@,
        TokenType::Null => "Null"@,
        TokenType::Or => "Or"@,
        TokenType::Return => "Return"@,
        TokenType::Struct => "Struct"@,
        TokenType::True => "True"@,
        TokenType::While => "While"@,
        TokenType::EndOfFile => "EndOfFile"@,
    }
}

impl TokenType {
    /// The name of this kind, as debugging output shows it.
    pub fn name(&self) -> (r: &'static str)
        ensures
            r@ == kind_name(*self),
    {
        match self {
            TokenType::LeftParen => "LeftParen",
            TokenType::RightParen => "RightParen",
            TokenType::LeftBrace => "LeftBrace",
            TokenType::RightBrace => "RightBrace",
            TokenType::Comma => "Comma",
            TokenType::Dot => "Dot",
            TokenType::Semicolon => "Semicolon",
            TokenType::Colon => "Colon",
            TokenType::Question => "Question",
            TokenType::At => "At",
            TokenType::Hash => "Hash",
            TokenType::Minus => "Minus",
            TokenType::Plus => "Plus",
            TokenType::Slash => "Slash",
            TokenType::Star => "Star",
            TokenType::Bang => "Bang",
            TokenType::BangEqual => "BangEqual",
            TokenType::Equal => "Equal",
            TokenType::EqualEqual => "EqualEqual",
            TokenType::Greater => "Greater",
            TokenType::GreaterEqual => "GreaterEqual",
            TokenType::Less => "Less",
            TokenType::LessEqual => "LessEqual",
            TokenType::Arrow => "Arrow",
            TokenType::FatArrow => "FatArrow",
            TokenType::DoubleColon => "DoubleColon",
            TokenType::Identifier => "Identifier",
            TokenType::String => "String",
            TokenType::Number => "Number",
            TokenType::And => "And",
            TokenType::Async => "Async",
            TokenType::Await => "Await",
            TokenType::Else => "Else",
            TokenType::Enum => "Enum",
            TokenType::False => "False",
            TokenType::Fn => "Fn",
            TokenType::For => "For",
            TokenType::If => "If",
            TokenType::In => "In",
            TokenType::Let => "Let",
            TokenType::Match => "Match",
            TokenType::Null => "Null",
            TokenType::Or => "Or",
            TokenType::Return => "Return",
            TokenType::Struct => "Struct",
            TokenType::True => "True",
            TokenType::While => "While",
            TokenType::EndOfFile => "EndOfFile",
        }
    }
}

/// The decimal notation of an integer, with a leading `-` when it is negative.
pub open spec fn signed_decimal(n: int) -> Seq<char> {
    if n < 0 {
        seq!['-'] + decimal((-n) as nat)
    } else {
        decimal(n as nat)
    }
}

/// A literal value as debugging output shows it: a string in double quotes,
/// a number in its decimal notation, `true`, `false` or `null`.
pub open spec fn literal_text(l: LiteralView) -> Seq<char> {
    match l {
        LiteralView::Str(s) => seq!['"'] + s + seq!['"'],
        LiteralView::Integer(n) => signed_decimal(n as int),
        LiteralView::Float(text) => text,
        LiteralView::Boolean(b) => if b { "true"@ } else { "false"@ },
        LiteralView::Null => "null"@,
    }
}

impl LiteralValue {
    /// Appends the value as debugging output shows it (see [`literal_text`]).
    pub fn push_debug_text(&self, out: &mut String)
        ensures
            final(out)@ == old(out)@ + literal_text(self@),
    {
        match self {
            LiteralValue::String(text) => {
                out.push('"');
                push_str(out, text.as_str());
                out.push('"');
                assert(out@ =~= old(out)@ + literal_text(self@));
            },
            LiteralValue::Integer(n) => {
                let m: u64 = if *n < 0 {
                    out.push('-');
                    (-(*n as i128)) as u64
                } else {
                    *n as u64
                };
                push_decimal(out, m);
                assert(out@ =~= old(out)@ + literal_text(self@));
            },
            LiteralValue::Float(text) => {
                push_str(out, text.as_str());
            },
            LiteralValue::Boolean(b) => {
                if *b {
                    push_str(out, "true");
                } else {
                    push_str(out, "false");
                }
            },
            LiteralValue::Null => {
                push_str(out, "null");
            },
        }
    }
}

} // verus!

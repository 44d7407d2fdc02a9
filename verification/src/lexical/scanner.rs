//! The scanner: turns source text into tokens, reporting lexical errors.

use vstd::prelude::*;
use crate::lexical::keywords::{keyword_table, Keywords};
use crate::lexical::lexing::{
    alnum_end, block_comment_end, char_at_is, digits_end, digits_value, initial_state, is_alnum_char,
    is_alpha_char, is_digit_char, line_end, newlines, quote_end, scan_all, scan_identifier, scan_number,
    scan_rest, scan_slash, scan_step, scan_string, with_error, with_token, ScanState,
};
use crate::lexical::token::{Token, TokenView};
use crate::lexical::token_type::{literal_view, LiteralValue, TokenType};
use crate::text::{push_str, string_from_chars};
use crate::throw::Error;

verus! {

/// Counting line breaks one character further.
proof fn lemma_newlines_step(src: Seq<char>, a: int, i: int)
    requires
        0 <= a <= i < src.len(),
    ensures
        newlines(src.subrange(a, i + 1)) == newlines(src.subrange(a, i)) + if src[i] == '\n' { 1nat } else { 0nat },
{
    assert(src.subrange(a, i + 1).drop_last() =~= src.subrange(a, i));
}

/// The value of a digit string is at least the value of each of its prefixes.
proof fn lemma_digits_value_prefix(s: Seq<char>, k: int)
    requires
        0 <= k <= s.len(),
    ensures
        digits_value(s.take(k)) <= digits_value(s),
    decreases s.len(),
{
    if k < s.len() {
        lemma_digits_value_prefix(s.drop_last(), k);
        assert(s.drop_last().take(k) =~= s.take(k));
    } else {
        assert(s.take(k) =~= s);
    }
}

/// Reads the digits `src[from..to]` as a number, if it fits in an `i64`.
fn digits_to_i64(src: &Vec<char>, from: usize, to: usize) -> (r: Option<i64>)
    requires
        from <= to <= src@.len(),
        forall|j: int| from <= j < to ==> is_digit_char(#[trigger] src@[j]),
    ensures
        r matches Some(v) ==> v >= 0 && v as nat == digits_value(src@.subrange(from as int, to as int)),
        r is None <==> digits_value(src@.subrange(from as int, to as int)) > i64::MAX,
{
    let mut acc: i64 = 0;
    let mut i = from;
    while i < to
        invariant
            from <= i <= to <= src@.len(),
            forall|j: int| from <= j < to ==> is_digit_char(#[trigger] src@[j]),
            acc >= 0,
            acc as nat == digits_value(src@.subrange(from as int, i as int)),
        decreases to - i,
    {
        let c = src[i];
        assert(is_digit_char(src@[i as int]));
        let d: u32 = (c as u32) - ('0' as u32);
        let wide: i128 = (acc as i128) * 10 + (d as i128);
        assert(src@.subrange(from as int, i + 1).drop_last() =~= src@.subrange(from as int, i as int));
        if wide > 9223372036854775807 {
            proof {
                let whole = src@.subrange(from as int, to as int);
                lemma_digits_value_prefix(whole, i + 1 - from);
                assert(whole.take(i + 1 - from) =~= src@.subrange(from as int, i + 1));
            }
            return None;
        }
        acc = wide as i64;
        i = i + 1;
    }
    Some(acc)
}

/// Turns the characters of a source text into tokens.
pub struct Scanner {
    source: Vec<char>,
    tokens: Vec<Token>,
    /// Position of the first character of the token being scanned.
    start: usize,
    /// Position of the next character to look at.
    current: usize,
    line: usize,
    throw: Error,
    keywords: Keywords,
}

impl Scanner {
    /// The characters being scanned.
    pub closed spec fn text(&self) -> Seq<char> {
        self.source@
    }

    /// The reserved words that the scanner recognises.
    pub closed spec fn reserved(&self) -> Map<Seq<char>, TokenType> {
        self.keywords@
    }

    /// Where the scan stands: position, line, tokens and error log.
    pub closed spec fn state(&self) -> ScanState {
        ScanState {
            current: self.current as int,
            line: self.line as nat,
            tokens: self.tokens@.map_values(|t: Token| t@),
            errors: self.throw@,
        }
    }

    /// The scanner's internal consistency: the position is inside the text
    /// and the line count cannot overflow.
    pub closed spec fn wf(&self) -> bool {
        &&& self.source@.len() < usize::MAX
        &&& self.start <= self.current <= self.source@.len()
        &&& self.line <= self.current + 1
    }

    /// A scanner over `source` that reports to `throw` and recognises `keywords`.
    pub fn new(source: &str, throw: Error, keywords: Keywords) -> (r: Self)
        requires
            source@.len() < usize::MAX,
        ensures
            r.wf(),
            r.text() == source@,
            r.reserved() == keywords@,
            r.state() == initial_state(throw@),
    {
        let r = Scanner {
            source: crate::text::chars_of(source),
            tokens: Vec::new(),
            start: 0,
            current: 0,
            line: 1,
            throw,
            keywords,
        };
        assert(r.state().tokens =~= Seq::<TokenView>::empty());
        r
    }

    /// Scans the rest of the text and returns all tokens recorded, ending with
    /// the end-of-file token.
    pub fn run(&mut self) -> (r: &Vec<Token>)
        requires
            old(self).wf(),
        ensures
            final(self).wf(),
            final(self).text() == old(self).text(),
            final(self).reserved() == old(self).reserved(),
            final(self).state() == scan_all(old(self).text(), old(self).reserved(), old(self).state()),
            r@.map_values(|t: Token| t@) == final(self).state().tokens,
    {
        self.scan_tokens();
        &self.tokens
    }

    /// The tokens recorded so far.
    pub fn tokens(&self) -> (r: &Vec<Token>)
        ensures
            r@.map_values(|t: Token| t@) == self.state().tokens,
    {
        &self.tokens
    }

    /// The error log that the scanner reports to.
    pub fn reporter(&self) -> (r: &Error)
        ensures
            r@ == self.state().errors,
    {
        &self.throw
    }

    fn is_at_end(&self) -> (r: bool)
        ensures
            r == (self.current >= self.source@.len()),
    {
        self.current >= self.source.len()
    }

    fn current_char_info(&self) -> (r: Option<char>)
        ensures
            r == (if self.current < self.source@.len() { Some(self.source@[self.current as int]) } else { None }),
    {
        if self.is_at_end() {
            None
        } else {
            Some(self.source[self.current])
        }
    }

    fn peek(&self) -> (r: char)
        ensures
            r == (if self.current < self.source@.len() { self.source@[self.current as int] } else { '\0' }),
    {
        match self.current_char_info() {
            Some(c) => c,
            None => '\0',
        }
    }

    fn peek_next(&self) -> (r: char)
        requires
            self.current <= self.source@.len() < usize::MAX,
        ensures
            r == (if self.current + 1 < self.source@.len() { self.source@[self.current + 1] } else { '\0' }),
    {
        match self.current_char_info() {
            Some(_) => {
                let next = self.current + 1;
                if next >= self.source.len() {
                    '\0'
                } else {
                    self.source[next]
                }
            },
            None => '\0',
        }
    }

    fn advance(&mut self) -> (r: char)
        requires
            old(self).current <= old(self).source@.len() < usize::MAX,
        ensures
            *final(self) == (Scanner { current: if old(self).current < old(self).source@.len() { (old(self).current + 1) as usize } else { old(self).current }, ..*old(self) }),
            r == (if old(self).current < old(self).source@.len() { old(self).source@[old(self).current as int] } else { '\0' }),
    {
        match self.current_char_info() {
            Some(c) => {
                self.current = self.current + 1;
                c
            },
            None => '\0',
        }
    }

    fn match_char(&mut self, expected: char) -> (r: bool)
        requires
            old(self).current <= old(self).source@.len() < usize::MAX,
        ensures
            r == char_at_is(old(self).source@, old(self).current as int, expected),
            *final(self) == (Scanner { current: if r { (old(self).current + 1) as usize } else { old(self).current }, ..*old(self) }),
    {
        match self.current_char_info() {
            Some(c) => {
                if c == expected {
                    self.current = self.current + 1;
                    true
                } else {
                    false
                }
            },
            None => false,
        }
    }

    fn is_digit(&self, c: char) -> (r: bool)
        ensures
            r == is_digit_char(c),
    {
        '0' <= c && c <= '9'
    }

    fn is_alpha(&self, c: char) -> (r: bool)
        ensures
            r == is_alpha_char(c),
    {
        ('a' <= c && c <= 'z') || ('A' <= c && c <= 'Z') || c == '_'
    }

    fn is_alpha_numeric(&self, c: char) -> (r: bool)
        ensures
            r == is_alnum_char(c),
    {
        self.is_alpha(c) || self.is_digit(c)
    }

    fn add_token(&mut self, token_type: TokenType, literal: Option<LiteralValue>)
        requires
            old(self).wf(),
        ensures
            final(self).wf(),
            final(self).source == old(self).source,
            final(self).keywords == old(self).keywords,
            final(self).start == old(self).start,
            final(self).current == old(self).current,
            final(self).state() == with_token(
                old(self).source@,
                old(self).state(),
                old(self).start as int,
                token_type,
                literal_view(literal),
            ),
    {
        let text = string_from_chars(&self.source, self.start, self.current);
        let token = Token { token_type, lexeme: text, literal, line: self.line };
        self.tokens.push(token);
        assert(self.state().tokens =~= old(self).state().tokens.push(token@));
    }

    fn report(&mut self, message: &str)
        requires
            old(self).wf(),
        ensures
            final(self).wf(),
            final(self).source == old(self).source,
            final(self).keywords == old(self).keywords,
            final(self).start == old(self).start,
            final(self).current == old(self).current,
            final(self).state() == with_error(old(self).state(), message@),
    {
        let line = self.line;
        self.throw.error(line, message);
    }

    /// A string literal; the opening quote has been taken.
    fn string(&mut self)
        requires
            old(self).wf(),
            old(self).current == old(self).start + 1,
            old(self).source@[old(self).start as int] == '"',
        ensures
            final(self).wf(),
            final(self).source == old(self).source,
            final(self).keywords == old(self).keywords,
            old(self).current <= final(self).current,
            final(self).state() == scan_string(old(self).source@, old(self).state(), old(self).start as int),
    {
        let ghost src = self.source@;
        let ghost from = self.current as int;
        let ghost end = quote_end(src, from);
        while self.peek() != '"' && !self.is_at_end()
            invariant
                self.wf(),
                self.source == old(self).source,
                src == self.source@,
                self.keywords == old(self).keywords,
                self.start == old(self).start,
                self.tokens == old(self).tokens,
                self.throw == old(self).throw,
                from == old(self).current as int,
                from <= self.current,
                quote_end(src, self.current as int) == end,
                self.line == old(self).line + newlines(src.subrange(from, self.current as int)),
            decreases src.len() - self.current,
        {
            proof {
                lemma_newlines_step(src, from, self.current as int);
            }
            if self.peek() == '\n' {
                self.line = self.line + 1;
            }
            self.advance();
        }
        if self.is_at_end() {
            self.report("Unterminated string.");
            return;
        }
        self.advance();
        let value = string_from_chars(&self.source, self.start + 1, self.current - 1);
        self.add_token(TokenType::String, Some(LiteralValue::String(value)));
    }

    /// A number; its first digit has been taken.
    fn number(&mut self)
        requires
            old(self).wf(),
            old(self).current == old(self).start + 1,
            is_digit_char(old(self).source@[old(self).start as int]),
        ensures
            final(self).wf(),
            final(self).source == old(self).source,
            final(self).keywords == old(self).keywords,
            old(self).current <= final(self).current,
            final(self).state() == scan_number(old(self).source@, old(self).state(), old(self).start as int),
    {
        let ghost src = self.source@;
        let ghost int_end = digits_end(src, self.current as int);
        while self.is_digit(self.peek())
            invariant
                self.wf(),
                self.source == old(self).source,
                src == self.source@,
                self.keywords == old(self).keywords,
                self.start == old(self).start,
                self.line == old(self).line,
                self.tokens == old(self).tokens,
                self.throw == old(self).throw,
                old(self).current <= self.current,
                digits_end(src, self.current as int) == int_end,
                forall|j: int| self.start <= j < self.current ==> is_digit_char(#[trigger] src[j]),
            decreases src.len() - self.current,
        {
            self.advance();
        }
        let mut is_float = false;
        if self.peek() == '.' && self.is_digit(self.peek_next()) {
            is_float = true;
            self.advance();
            let ghost frac_end = digits_end(src, self.current as int);
            while self.is_digit(self.peek())
                invariant
                    self.wf(),
                    self.source == old(self).source,
                src == self.source@,
                    self.keywords == old(self).keywords,
                    self.start == old(self).start,
                    self.line == old(self).line,
                    self.tokens == old(self).tokens,
                    self.throw == old(self).throw,
                    int_end + 1 <= self.current,
                    digits_end(src, self.current as int) == frac_end,
                decreases src.len() - self.current,
            {
                self.advance();
            }
        }
        if is_float {
            let text = string_from_chars(&self.source, self.start, self.current);
            self.add_token(TokenType::Number, Some(LiteralValue::Float(text)));
        } else {
            match digits_to_i64(&self.source, self.start, self.current) {
                Some(v) => {
                    assert(v == digits_value(src.subrange(self.start as int, self.current as int)) as i64);
                    self.add_token(TokenType::Number, Some(LiteralValue::Integer(v)));
                },
                None => {
                    let mut message = String::new();
                    push_str(&mut message, "Invalid integer number: '");
                    let text = string_from_chars(&self.source, self.start, self.current);
                    push_str(&mut message, text.as_str());
                    push_str(&mut message, "'");
                    assert(message@ =~= "Invalid integer number: '"@ + src.subrange(self.start as int, self.current as int) + "'"@);
                    self.report(message.as_str());
                },
            }
        }
    }

    /// An identifier or reserved word; its first character has been taken.
    fn identifier(&mut self)
        requires
            old(self).wf(),
            old(self).current == old(self).start + 1,
        ensures
            final(self).wf(),
            final(self).source == old(self).source,
            final(self).keywords == old(self).keywords,
            old(self).current <= final(self).current,
            final(self).state() == scan_identifier(
                old(self).source@,
                old(self).keywords@,
                old(self).state(),
                old(self).start as int,
            ),
    {
        let ghost src = self.source@;
        let ghost end = alnum_end(src, self.current as int);
        while self.is_alpha_numeric(self.peek())
            invariant
                self.wf(),
                self.source == old(self).source,
                src == self.source@,
                self.keywords == old(self).keywords,
                self.start == old(self).start,
                self.line == old(self).line,
                self.tokens == old(self).tokens,
                self.throw == old(self).throw,
                old(self).current <= self.current,
                alnum_end(src, self.current as int) == end,
            decreases src.len() - self.current,
        {
            self.advance();
        }
        let text = string_from_chars(&self.source, self.start, self.current);
        match self.keywords.get(text.as_str()) {
            Some(t) => {
                let keyword_type: TokenType = *t;
                match keyword_type {
                    TokenType::True => self.add_token(TokenType::True, Some(LiteralValue::Boolean(true))),
                    TokenType::False => self.add_token(TokenType::False, Some(LiteralValue::Boolean(false))),
                    TokenType::Null => self.add_token(TokenType::Null, Some(LiteralValue::Null)),
                    _ => self.add_token(keyword_type, None),
                }
            },
            None => self.add_token(TokenType::Identifier, None),
        }
    }

    /// What follows a `/`; the slash has been taken.
    fn slash(&mut self)
        requires
            old(self).wf(),
            old(self).current == old(self).start + 1,
        ensures
            final(self).wf(),
            final(self).source == old(self).source,
            final(self).keywords == old(self).keywords,
            old(self).current <= final(self).current,
            final(self).state() == scan_slash(old(self).source@, old(self).state(), old(self).start as int),
    {
        let ghost src = self.source@;
        if self.match_char('/') {
            let ghost end = line_end(src, self.current as int);
            while self.peek() != '\n' && !self.is_at_end()
                invariant
                    self.wf(),
                    self.source == old(self).source,
                src == self.source@,
                    self.keywords == old(self).keywords,
                    self.start == old(self).start,
                    self.line == old(self).line,
                    self.tokens == old(self).tokens,
                    self.throw == old(self).throw,
                    old(self).current < self.current,
                    line_end(src, self.current as int) == end,
                decreases src.len() - self.current,
            {
                self.advance();
            }
        } else if self.match_char('*') {
            let ghost from = self.current as int;
            let ghost end = block_comment_end(src, from);
            loop
                invariant_except_break
                    self.wf(),
                    self.source == old(self).source,
                src == self.source@,
                    self.keywords == old(self).keywords,
                    self.start == old(self).start,
                    self.tokens == old(self).tokens,
                    self.throw == old(self).throw,
                    0 <= from <= self.current,
                    from == old(self).current + 1,
                    !char_at_is(src, old(self).current as int, '/'),
                    char_at_is(src, old(self).current as int, '*'),
                    old(self).current < self.current,
                    block_comment_end(src, self.current as int) == end,
                    end == block_comment_end(src, from),
                    self.line == old(self).line + newlines(src.subrange(from, self.current as int)),
                ensures
                    self.wf(),
                    old(self).current <= self.current,
                    self.source == old(self).source,
                src == self.source@,
                    self.keywords == old(self).keywords,
                    self.state() == scan_slash(src, old(self).state(), old(self).start as int),
                decreases src.len() - self.current,
            {
                if self.is_at_end() {
                    self.report("Unterminated block comment.");
                    break;
                }
                if self.peek() == '*' && self.peek_next() == '/' {
                    self.advance();
                    self.advance();
                    break;
                }
                proof {
                    lemma_newlines_step(src, from, self.current as int);
                }
                if self.peek() == '\n' {
                    self.line = self.line + 1;
                }
                self.advance();
            }
        } else {
            self.add_token(TokenType::Slash, None);
        }
    }

    /// Reports an unexpected character.
    fn unexpected(&mut self, c: char)
        requires
            old(self).wf(),
        ensures
            final(self).wf(),
            final(self).source == old(self).source,
            final(self).keywords == old(self).keywords,
            final(self).start == old(self).start,
            final(self).current == old(self).current,
            final(self).state() == with_error(old(self).state(), "Unexpected character: '"@ + seq![c] + "'"@),
    {
        let mut message = String::new();
        push_str(&mut message, "Unexpected character: '");
        message.push(c);
        push_str(&mut message, "'");
        assert(message@ =~= "Unexpected character: '"@ + seq![c] + "'"@);
        self.report(message.as_str());
    }

    /// One step of the scan from the current position.
    fn scan_token(&mut self)
        requires
            old(self).wf(),
            old(self).current < old(self).source@.len(),
            old(self).start == old(self).current,
        ensures
            final(self).wf(),
            final(self).source == old(self).source,
            final(self).keywords == old(self).keywords,
            final(self).state() == scan_step(old(self).source@, old(self).keywords@, old(self).state()),
            old(self).current < final(self).current,
    {
        let c = self.advance();
        match c {
            '(' => self.add_token(TokenType::LeftParen, None),
            ')' => self.add_token(TokenType::RightParen, None),
            '{' => self.add_token(TokenType::LeftBrace, None),
            '}' => self.add_token(TokenType::RightBrace, None),
            ',' => self.add_token(TokenType::Comma, None),
            '.' => self.add_token(TokenType::Dot, None),
            '+' => self.add_token(TokenType::Plus, None),
            ';' => self.add_token(TokenType::Semicolon, None),
            '*' => self.add_token(TokenType::Star, None),
            '@' => self.add_token(TokenType::At, None),
            '#' => self.add_token(TokenType::Hash, None),
            '?' => self.add_token(TokenType::Question, None),
            ':' => {
                if self.match_char(':') {
                    self.add_token(TokenType::DoubleColon, None);
                } else {
                    self.add_token(TokenType::Colon, None);
                }
            },
            '-' => {
                if self.match_char('>') {
                    self.add_token(TokenType::Arrow, None);
                } else {
                    self.add_token(TokenType::Minus, None);
                }
            },
            '!' => {
                if self.match_char('=') {
                    self.add_token(TokenType::BangEqual, None);
                } else {
                    self.add_token(TokenType::Bang, None);
                }
            },
            '=' => {
                if self.match_char('=') {
                    self.add_token(TokenType::EqualEqual, None);
                } else if self.match_char('>') {
                    self.add_token(TokenType::FatArrow, None);
                } else {
                    self.add_token(TokenType::Equal, None);
                }
            },
            '<' => {
                if self.match_char('=') {
                    self.add_token(TokenType::LessEqual, None);
                } else {
                    self.add_token(TokenType::Less, None);
                }
            },
            '>' => {
                if self.match_char('=') {
                    self.add_token(TokenType::GreaterEqual, None);
                } else {
                    self.add_token(TokenType::Greater, None);
                }
            },
            '/' => self.slash(),
            '"' => self.string(),
            ' ' | '\r' | '\t' => {},
            '\n' => {
                self.line = self.line + 1;
            },
            _ => {
                if c == '\0' && self.is_at_end() {
                } else if self.is_digit(c) {
                    self.number();
                } else if self.is_alpha(c) {
                    self.identifier();
                } else {
                    self.unexpected(c);
                }
            },
        }
    }

    /// Scans to the end of the text, then records the end-of-file token.
    fn scan_tokens(&mut self)
        requires
            old(self).wf(),
        ensures
            final(self).wf(),
            final(self).source == old(self).source,
            final(self).keywords == old(self).keywords,
            final(self).state() == scan_all(old(self).source@, old(self).keywords@, old(self).state()),
    {
        let ghost src = self.source@;
        let ghost kw = self.keywords@;
        while !self.is_at_end()
            invariant
                self.wf(),
                self.source == old(self).source,
                src == self.source@,
                self.keywords == old(self).keywords,
                kw == self.keywords@,
                scan_rest(src, kw, self.state()) == scan_rest(src, kw, old(self).state()),
            decreases src.len() - self.current,
        {
            self.start = self.current;
            let ghost before = self.state();
            self.scan_token();
            assert(scan_rest(src, kw, before) == scan_rest(src, kw, self.state()));
        }
        let eof = Token { token_type: TokenType::EndOfFile, lexeme: String::new(), literal: None, line: self.line };
        self.tokens.push(eof);
        assert(self.state().tokens =~= scan_all(src, kw, old(self).state()).tokens);
    }
}

impl Default for Scanner {
    /// A scanner over empty text, with an empty error log and the reserved words.
    fn default() -> (r: Self)
        ensures
            r.wf(),
            r.text() == Seq::<char>::empty(),
            r.reserved() == keyword_table(),
            r.state() == initial_state(Seq::empty()),
    {
        let r = Scanner {
            source: Vec::new(),
            tokens: Vec::new(),
            start: 0,
            current: 0,
            line: 1,
            throw: Error::new(),
            keywords: Keywords::new(),
        };
        assert(r.state().tokens =~= Seq::<TokenView>::empty());
        r
    }
}

} // verus!

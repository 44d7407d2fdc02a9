//! What the scanner computes, stated over the characters of the source.
//!
//! A scan walks the source from left to right. At each step it looks at one
//! character and the few after it, and either skips them (white space,
//! comments), records a token, or records an error. The state between two
//! steps is a [`ScanState`].

use vstd::prelude::*;
use crate::lexical::token::TokenView;
use crate::lexical::token_type::{LiteralView, TokenType};
use crate::throw::error_entry;

verus! {

/// Whether `c` is an ASCII decimal digit.
pub open spec fn is_digit_char(c: char) -> bool {
    '0' <= c && c <= '9'
}

/// Whether `c` may start an identifier: an ASCII letter or `_`.
pub open spec fn is_alpha_char(c: char) -> bool {
    ('a' <= c && c <= 'z') || ('A' <= c && c <= 'Z') || c == '_'
}

/// Whether `c` may continue an identifier.
pub open spec fn is_alnum_char(c: char) -> bool {
    is_alpha_char(c) || is_digit_char(c)
}

/// The first position at or after `i` that does not hold a decimal digit
/// (the length of `src` if there is none).
pub open spec fn digits_end(src: Seq<char>, i: int) -> int
    decreases src.len() - i,
{
    if i < 0 || i >= src.len() || !is_digit_char(src[i]) {
        i
    } else {
        digits_end(src, i + 1)
    }
}

/// The first position at or after `i` that does not hold a letter, digit or `_`
/// (the length of `src` if there is none).
pub open spec fn alnum_end(src: Seq<char>, i: int) -> int
    decreases src.len() - i,
{
    if i < 0 || i >= src.len() || !is_alnum_char(src[i]) {
        i
    } else {
        alnum_end(src, i + 1)
    }
}

/// The first position at or after `i` that holds `"` (the length of `src` if there is none).
pub open spec fn quote_end(src: Seq<char>, i: int) -> int
    decreases src.len() - i,
{
    if i < 0 || i >= src.len() || src[i] == '"' {
        i
    } else {
        quote_end(src, i + 1)
    }
}

/// The first position at or after `i` that holds a line break (the length of `src` if there is none).
pub open spec fn line_end(src: Seq<char>, i: int) -> int
    decreases src.len() - i,
{
    if i < 0 || i >= src.len() || src[i] == '\n' {
        i
    } else {
        line_end(src, i + 1)
    }
}

/// The first position at or after `i` that starts `*/` (the length of `src` if there is none).
pub open spec fn block_comment_end(src: Seq<char>, i: int) -> int
    decreases src.len() - i,
{
    if i < 0 || i >= src.len() {
        i
    } else if src[i] == '*' && i + 1 < src.len() && src[i + 1] == '/' {
        i
    } else {
        block_comment_end(src, i + 1)
    }
}

/// The number of line breaks in `s`.
pub open spec fn newlines(s: Seq<char>) -> nat
    decreases s.len(),
{
    if s.len() == 0 {
        0
    } else {
        newlines(s.drop_last()) + if s.last() == '\n' { 1nat } else { 0nat }
    }
}

/// The value of a string of decimal digits.
pub open spec fn digits_value(s: Seq<char>) -> nat
    decreases s.len(),
{
    if s.len() == 0 {
        0
    } else {
        digits_value(s.drop_last()) * 10 + ((s.last() as nat) - ('0' as nat)) as nat
    }
}

/// The state of a scan between two steps.
pub struct ScanState {
    /// Position of the next character to look at.
    pub current: int,
    /// The line that the next character is on, counting from 1.
    pub line: nat,
    /// The tokens recorded so far.
    pub tokens: Seq<TokenView>,
    /// The error log so far.
    pub errors: Seq<Seq<char>>,
}

/// The state after recording an error with `message` on the current line.
pub open spec fn with_error(st: ScanState, message: Seq<char>) -> ScanState {
    ScanState { errors: st.errors.push(error_entry(st.line, message)), ..st }
}

/// The state after recording the token of kind `ty` whose text runs from `start`
/// to the current position.
pub open spec fn with_token(src: Seq<char>, st: ScanState, start: int, ty: TokenType, literal: Option<LiteralView>) -> ScanState {
    ScanState {
        tokens: st.tokens.push(
            TokenView {
                token_type: ty,
                lexeme: src.subrange(start, st.current),
                literal,
                line: st.line as usize,
            },
        ),
        ..st
    }
}

/// The state after moving to position `to`, counting the line breaks passed over.
pub open spec fn moved(src: Seq<char>, st: ScanState, to: int) -> ScanState {
    ScanState { current: to, line: st.line + newlines(src.subrange(st.current, to)), ..st }
}

/// Whether the character at `i` exists and is `c`.
pub open spec fn char_at_is(src: Seq<char>, i: int, c: char) -> bool {
    0 <= i < src.len() && src[i] == c
}

/// A string literal whose opening quote is at `start`; the state is just past the quote.
pub open spec fn scan_string(src: Seq<char>, st: ScanState, start: int) -> ScanState {
    let end = quote_end(src, st.current);
    let at_close = moved(src, st, end);
    if end >= src.len() {
        with_error(at_close, "Unterminated string."@)
    } else {
        let closed = ScanState { current: end + 1, ..at_close };
        with_token(src, closed, start, TokenType::String, Some(LiteralView::Str(src.subrange(start + 1, end))))
    }
}

/// A number whose first digit is at `start`; the state is just past that digit.
pub open spec fn scan_number(src: Seq<char>, st: ScanState, start: int) -> ScanState {
    let int_end = digits_end(src, st.current);
    if char_at_is(src, int_end, '.') && int_end + 1 < src.len() && is_digit_char(src[int_end + 1]) {
        let end = digits_end(src, int_end + 1);
        let text = src.subrange(start, end);
        with_token(src, ScanState { current: end, ..st }, start, TokenType::Number, Some(LiteralView::Float(text)))
    } else {
        let text = src.subrange(start, int_end);
        let at_end = ScanState { current: int_end, ..st };
        if digits_value(text) <= i64::MAX {
            with_token(src, at_end, start, TokenType::Number, Some(LiteralView::Integer(digits_value(text) as i64)))
        } else {
            with_error(at_end, "Invalid integer number: '"@ + text + "'"@)
        }
    }
}

/// An identifier or reserved word whose first character is at `start`;
/// the state is just past that character.
pub open spec fn scan_identifier(src: Seq<char>, kw: Map<Seq<char>, TokenType>, st: ScanState, start: int) -> ScanState {
    let end = alnum_end(src, st.current);
    let word = src.subrange(start, end);
    let at_end = ScanState { current: end, ..st };
    if kw.contains_key(word) {
        match kw[word] {
            TokenType::True => with_token(src, at_end, start, TokenType::True, Some(LiteralView::Boolean(true))),
            TokenType::False => with_token(src, at_end, start, TokenType::False, Some(LiteralView::Boolean(false))),
            TokenType::Null => with_token(src, at_end, start, TokenType::Null, Some(LiteralView::Null)),
            t => with_token(src, at_end, start, t, None),
        }
    } else {
        with_token(src, at_end, start, TokenType::Identifier, None)
    }
}

/// A token of kind `two` if the character at the current position is `second`
/// (which is then taken too), else a token of kind `one`.
pub open spec fn one_or_two(src: Seq<char>, st: ScanState, start: int, second: char, two: TokenType, one: TokenType) -> ScanState {
    if char_at_is(src, st.current, second) {
        with_token(src, ScanState { current: st.current + 1, ..st }, start, two, None)
    } else {
        with_token(src, st, start, one, None)
    }
}

/// What follows a `/` whose position is `start`; the state is just past it.
pub open spec fn scan_slash(src: Seq<char>, st: ScanState, start: int) -> ScanState {
    if char_at_is(src, st.current, '/') {
        ScanState { current: line_end(src, st.current + 1), ..st }
    } else if char_at_is(src, st.current, '*') {
        let from = st.current + 1;
        let end = block_comment_end(src, from);
        let inside = moved(src, ScanState { current: from, ..st }, end);
        if end >= src.len() {
            with_error(inside, "Unterminated block comment."@)
        } else {
            ScanState { current: end + 2, ..inside }
        }
    } else {
        with_token(src, st, start, TokenType::Slash, None)
    }
}

/// The token kind of a character that is a token by itself.
pub open spec fn single_char_token(c: char) -> Option<TokenType> {
    if c == '(' {
        Some(TokenType::LeftParen)
    } else if c == ')' {
        Some(TokenType::RightParen)
    } else if c == '{' {
        Some(TokenType::LeftBrace)
    } else if c == '}' {
        Some(TokenType::RightBrace)
    } else if c == ',' {
        Some(TokenType::Comma)
    } else if c == '.' {
        Some(TokenType::Dot)
    } else if c == '+' {
        Some(TokenType::Plus)
    } else if c == ';' {
        Some(TokenType::Semicolon)
    } else if c == '*' {
        Some(TokenType::Star)
    } else if c == '@' {
        Some(TokenType::At)
    } else if c == '#' {
        Some(TokenType::Hash)
    } else if c == '?' {
        Some(TokenType::Question)
    } else {
        None
    }
}

/// One step of the scan, starting at the current position (which must be
/// inside the source).
pub open spec fn scan_step(src: Seq<char>, kw: Map<Seq<char>, TokenType>, st: ScanState) -> ScanState {
    let start = st.current;
    let c = src[start];
    let next = ScanState { current: start + 1, ..st };
    if single_char_token(c) is Some {
        with_token(src, next, start, single_char_token(c)->0, None)
    } else if c == ':' {
        one_or_two(src, next, start, ':', TokenType::DoubleColon, TokenType::Colon)
    } else if c == '-' {
        one_or_two(src, next, start, '>', TokenType::Arrow, TokenType::Minus)
    } else if c == '!' {
        one_or_two(src, next, start, '=', TokenType::BangEqual, TokenType::Bang)
    } else if c == '=' {
        if char_at_is(src, next.current, '=') {
            with_token(src, ScanState { current: next.current + 1, ..next }, start, TokenType::EqualEqual, None)
        } else {
            one_or_two(src, next, start, '>', TokenType::FatArrow, TokenType::Equal)
        }
    } else if c == '<' {
        one_or_two(src, next, start, '=', TokenType::LessEqual, TokenType::Less)
    } else if c == '>' {
        one_or_two(src, next, start, '=', TokenType::GreaterEqual, TokenType::Greater)
    } else if c == '/' {
        scan_slash(src, next, start)
    } else if c == '"' {
        scan_string(src, next, start)
    } else if c == ' ' || c == '\r' || c == '\t' {
        next
    } else if c == '\n' {
        ScanState { line: st.line + 1, ..next }
    } else if c == '\0' && next.current >= src.len() {
        next
    } else if is_digit_char(c) {
        scan_number(src, next, start)
    } else if is_alpha_char(c) {
        scan_identifier(src, kw, next, start)
    } else {
        with_error(next, "Unexpected character: '"@ + seq![c] + "'"@)
    }
}

/// Steps from `st` until the end of the source.
pub open spec fn scan_rest(src: Seq<char>, kw: Map<Seq<char>, TokenType>, st: ScanState) -> ScanState
    decreases src.len() - st.current,
{
    if st.current < 0 || st.current >= src.len() {
        st
    } else {
        let after = scan_step(src, kw, st);
        if st.current < after.current <= src.len() {
            scan_rest(src, kw, after)
        } else {
            after
        }
    }
}

/// A whole scan from `st`: every step, then the end-of-file token (with empty text,
/// on the last line).
pub open spec fn scan_all(src: Seq<char>, kw: Map<Seq<char>, TokenType>, st: ScanState) -> ScanState {
    let last = scan_rest(src, kw, st);
    ScanState {
        tokens: last.tokens.push(
            TokenView { token_type: TokenType::EndOfFile, lexeme: Seq::empty(), literal: None, line: last.line as usize },
        ),
        ..last
    }
}

/// The state a fresh scan starts in, with the reporter's earlier messages.
pub open spec fn initial_state(errors: Seq<Seq<char>>) -> ScanState {
    ScanState { current: 0, line: 1, tokens: Seq::empty(), errors }
}

/// No reserved word is read as the end-of-file token.
pub open spec fn reserves_no_end(kw: Map<Seq<char>, TokenType>) -> bool {
    forall|w: Seq<char>| kw.contains_key(w) ==> kw[w] != TokenType::EndOfFile
}

/// Whether `later` keeps the tokens and errors of `earlier` as they were, at
/// the front, in the same order.
pub open spec fn keeps_prefix(earlier: ScanState, later: ScanState) -> bool {
    &&& earlier.tokens.len() <= later.tokens.len()
    &&& later.tokens.subrange(0, earlier.tokens.len() as int) == earlier.tokens
    &&& earlier.errors.len() <= later.errors.len()
    &&& later.errors.subrange(0, earlier.errors.len() as int) == earlier.errors
}

/// Whether none of the tokens that `later` has beyond those of `earlier` is
/// the end-of-file token.
pub open spec fn adds_no_end(earlier: ScanState, later: ScanState) -> bool {
    forall|i: int|
        earlier.tokens.len() <= i < later.tokens.len() ==> #[trigger] later.tokens[i].token_type != TokenType::EndOfFile
}

/// One step of the scan only appends, and adds no end-of-file token when no
/// reserved word stands for one.
pub proof fn law_step_only_appends(src: Seq<char>, kw: Map<Seq<char>, TokenType>, st: ScanState)
    requires
        0 <= st.current < src.len(),
    ensures
        keeps_prefix(st, scan_step(src, kw, st)),
        reserves_no_end(kw) ==> adds_no_end(st, scan_step(src, kw, st)),
{
    let after = scan_step(src, kw, st);
    assert(after.tokens.subrange(0, st.tokens.len() as int) =~= st.tokens);
    assert(after.errors.subrange(0, st.errors.len() as int) =~= st.errors);
}

/// Keeping the front is transitive, and so is adding no end-of-file token.
proof fn lemma_appends_trans(a: ScanState, b: ScanState, c: ScanState)
    requires
        keeps_prefix(a, b),
        keeps_prefix(b, c),
    ensures
        keeps_prefix(a, c),
        adds_no_end(a, b) && adds_no_end(b, c) ==> adds_no_end(a, c),
{
    assert(c.tokens.subrange(0, a.tokens.len() as int) =~= b.tokens.subrange(0, a.tokens.len() as int));
    assert(c.errors.subrange(0, a.errors.len() as int) =~= b.errors.subrange(0, a.errors.len() as int));
    if adds_no_end(a, b) && adds_no_end(b, c) {
        assert forall|i: int| a.tokens.len() <= i < c.tokens.len() implies #[trigger] c.tokens[i].token_type
            != TokenType::EndOfFile by {
            if i < b.tokens.len() {
                assert(c.tokens[i] == c.tokens.subrange(0, b.tokens.len() as int)[i]);
            }
        }
    }
}

/// The steps of a scan only append.
proof fn lemma_rest_appends(src: Seq<char>, kw: Map<Seq<char>, TokenType>, st: ScanState)
    ensures
        keeps_prefix(st, scan_rest(src, kw, st)),
        reserves_no_end(kw) ==> adds_no_end(st, scan_rest(src, kw, st)),
    decreases src.len() - st.current,
{
    if st.current < 0 || st.current >= src.len() {
        assert(st.tokens.subrange(0, st.tokens.len() as int) =~= st.tokens);
        assert(st.errors.subrange(0, st.errors.len() as int) =~= st.errors);
    } else {
        let after = scan_step(src, kw, st);
        law_step_only_appends(src, kw, st);
        if st.current < after.current <= src.len() {
            lemma_rest_appends(src, kw, after);
            lemma_appends_trans(st, after, scan_rest(src, kw, after));
        }
    }
}

/// A scan keeps what it started with: the tokens and error messages of the
/// starting state come first in the result, in the same order.
pub proof fn law_scan_keeps_earlier(src: Seq<char>, kw: Map<Seq<char>, TokenType>, st: ScanState)
    ensures
        scan_all(src, kw, st).tokens.subrange(0, st.tokens.len() as int) == st.tokens,
        scan_all(src, kw, st).errors.subrange(0, st.errors.len() as int) == st.errors,
{
    lemma_rest_appends(src, kw, st);
    let last = scan_rest(src, kw, st);
    assert(scan_all(src, kw, st).tokens.subrange(0, st.tokens.len() as int) =~= last.tokens.subrange(0, st.tokens.len() as int));
}

/// A scan that starts with no end-of-file token ends with exactly one: the
/// last token, and only it, marks the end of the input.
pub proof fn law_scan_ends_with_one_eof(src: Seq<char>, kw: Map<Seq<char>, TokenType>, st: ScanState)
    requires
        reserves_no_end(kw),
        forall|i: int| 0 <= i < st.tokens.len() ==> #[trigger] st.tokens[i].token_type != TokenType::EndOfFile,
    ensures
        scan_all(src, kw, st).tokens.len() > 0,
        scan_all(src, kw, st).tokens.last().token_type == TokenType::EndOfFile,
        forall|i: int|
            0 <= i < scan_all(src, kw, st).tokens.len() - 1
                ==> #[trigger] scan_all(src, kw, st).tokens[i].token_type != TokenType::EndOfFile,
{
    lemma_rest_appends(src, kw, st);
    let last = scan_rest(src, kw, st);
    let all = scan_all(src, kw, st).tokens;
    assert forall|i: int| 0 <= i < all.len() - 1 implies #[trigger] all[i].token_type != TokenType::EndOfFile by {
        assert(all[i] == last.tokens[i]);
        if i < st.tokens.len() {
            assert(last.tokens[i] == last.tokens.subrange(0, st.tokens.len() as int)[i]);
        }
    }
}

/// Whether `t` is a stretch of consecutive characters of `src`.
pub open spec fn is_source_text(src: Seq<char>, t: Seq<char>) -> bool {
    exists|a: int, b: int| 0 <= a <= b <= src.len() && t == #[trigger] src.subrange(a, b)
}

proof fn lemma_digits_end_bounds(src: Seq<char>, i: int)
    requires
        0 <= i <= src.len(),
    ensures
        i <= digits_end(src, i) <= src.len(),
    decreases src.len() - i,
{
    if i < src.len() && is_digit_char(src[i]) {
        lemma_digits_end_bounds(src, i + 1);
    }
}

proof fn lemma_alnum_end_bounds(src: Seq<char>, i: int)
    requires
        0 <= i <= src.len(),
    ensures
        i <= alnum_end(src, i) <= src.len(),
    decreases src.len() - i,
{
    if i < src.len() && is_alnum_char(src[i]) {
        lemma_alnum_end_bounds(src, i + 1);
    }
}

proof fn lemma_quote_end_bounds(src: Seq<char>, i: int)
    requires
        0 <= i <= src.len(),
    ensures
        i <= quote_end(src, i) <= src.len(),
    decreases src.len() - i,
{
    if i < src.len() && src[i] != '"' {
        lemma_quote_end_bounds(src, i + 1);
    }
}

/// A step records at most one token, its text is exactly the characters that
/// the step read, and it carries the line the step ends on.
pub proof fn law_step_token_text(src: Seq<char>, kw: Map<Seq<char>, TokenType>, st: ScanState)
    requires
        0 <= st.current < src.len(),
    ensures
        scan_step(src, kw, st).tokens.len() <= st.tokens.len() + 1,
        scan_step(src, kw, st).tokens.len() == st.tokens.len() + 1 ==> {
            let after = scan_step(src, kw, st);
            &&& st.current < after.current <= src.len()
            &&& after.tokens.last().lexeme == src.subrange(st.current, after.current)
            &&& after.tokens.last().line == after.line as usize
        },
{
    lemma_digits_end_bounds(src, st.current + 1);
    lemma_alnum_end_bounds(src, st.current + 1);
    lemma_quote_end_bounds(src, st.current + 1);
    let int_end = digits_end(src, st.current + 1);
    if int_end + 1 <= src.len() {
        lemma_digits_end_bounds(src, int_end + 1);
    }
}

/// Every token that the steps of a scan record holds a stretch of the source.
proof fn lemma_rest_texts(src: Seq<char>, kw: Map<Seq<char>, TokenType>, st: ScanState)
    ensures
        forall|i: int|
            st.tokens.len() <= i < scan_rest(src, kw, st).tokens.len()
                ==> is_source_text(src, #[trigger] scan_rest(src, kw, st).tokens[i].lexeme),
    decreases src.len() - st.current,
{
    if 0 <= st.current < src.len() {
        let after = scan_step(src, kw, st);
        law_step_token_text(src, kw, st);
        law_step_only_appends(src, kw, st);
        if after.tokens.len() == st.tokens.len() + 1 {
            assert(src.subrange(st.current, after.current) == after.tokens.last().lexeme);
            assert(is_source_text(src, after.tokens.last().lexeme));
        }
        if st.current < after.current <= src.len() {
            lemma_rest_texts(src, kw, after);
            lemma_rest_appends(src, kw, after);
            let last = scan_rest(src, kw, after);
            assert forall|i: int| st.tokens.len() <= i < last.tokens.len() implies is_source_text(
                src,
                #[trigger] last.tokens[i].lexeme,
            ) by {
                if i < after.tokens.len() {
                    assert(last.tokens[i] == last.tokens.subrange(0, after.tokens.len() as int)[i]);
                    assert(last.tokens[i] == after.tokens[i]);
                }
            }
        }
    }
}

/// The text of every token that a scan records is a stretch of the source:
/// each token holds exactly the characters it was read from, and the
/// end-of-file token holds none.
pub proof fn law_token_texts_come_from_source(src: Seq<char>, kw: Map<Seq<char>, TokenType>, st: ScanState)
    ensures
        forall|i: int|
            st.tokens.len() <= i < scan_all(src, kw, st).tokens.len()
                ==> is_source_text(src, #[trigger] scan_all(src, kw, st).tokens[i].lexeme),
{
    lemma_rest_texts(src, kw, st);
    let last = scan_rest(src, kw, st);
    let all = scan_all(src, kw, st).tokens;
    assert(src.subrange(0, 0) =~= Seq::<char>::empty());
    assert forall|i: int| st.tokens.len() <= i < all.len() implies is_source_text(src, #[trigger] all[i].lexeme) by {
        if i < last.tokens.len() {
            assert(all[i] == last.tokens[i]);
        } else {
            assert(all[i].lexeme == src.subrange(0, 0));
        }
    }
}

/// A text has at most as many line breaks as characters.
proof fn lemma_newlines_bound(s: Seq<char>)
    ensures
        newlines(s) <= s.len(),
    decreases s.len(),
{
    if s.len() > 0 {
        lemma_newlines_bound(s.drop_last());
    }
}

proof fn lemma_line_end_bounds(src: Seq<char>, i: int)
    requires
        0 <= i <= src.len(),
    ensures
        i <= line_end(src, i) <= src.len(),
    decreases src.len() - i,
{
    if i < src.len() && src[i] != '\n' {
        lemma_line_end_bounds(src, i + 1);
    }
}

proof fn lemma_block_comment_end_bounds(src: Seq<char>, i: int)
    requires
        0 <= i <= src.len(),
    ensures
        i <= block_comment_end(src, i) <= src.len(),
        block_comment_end(src, i) < src.len() ==> block_comment_end(src, i) + 1 < src.len(),
    decreases src.len() - i,
{
    if i < src.len() && !(src[i] == '*' && i + 1 < src.len() && src[i + 1] == '/') {
        lemma_block_comment_end_bounds(src, i + 1);
    }
}

/// Whether the lines of `ts` never decrease and none is past `line`.
pub open spec fn lines_in_order(ts: Seq<TokenView>, line: nat) -> bool {
    &&& forall|i: int, j: int| 0 <= i <= j < ts.len() ==> #[trigger] ts[i].line <= #[trigger] ts[j].line
    &&& forall|i: int| 0 <= i < ts.len() ==> #[trigger] ts[i].line <= line
}

/// Whether counting one more line for every character left cannot pass the
/// largest line number a token holds.
pub open spec fn line_room(src: Seq<char>, st: ScanState) -> bool {
    &&& 0 <= st.current <= src.len()
    &&& st.line + (src.len() - st.current) <= usize::MAX
}

/// A step counts at most one line per character it reads, and a token it
/// records carries the line the step ends on.
proof fn lemma_step_lines(src: Seq<char>, kw: Map<Seq<char>, TokenType>, st: ScanState)
    requires
        0 <= st.current < src.len(),
        line_room(src, st),
        lines_in_order(st.tokens, st.line),
    ensures
        st.current < scan_step(src, kw, st).current <= src.len(),
        line_room(src, scan_step(src, kw, st)),
        lines_in_order(scan_step(src, kw, st).tokens, scan_step(src, kw, st).line),
{
    let after = scan_step(src, kw, st);
    let from = st.current + 1;
    lemma_quote_end_bounds(src, from);
    lemma_newlines_bound(src.subrange(from, quote_end(src, from)));
    lemma_digits_end_bounds(src, from);
    lemma_alnum_end_bounds(src, from);
    if from + 1 <= src.len() {
        lemma_block_comment_end_bounds(src, from + 1);
        lemma_line_end_bounds(src, from + 1);
        lemma_newlines_bound(src.subrange(from + 1, block_comment_end(src, from + 1)));
    }
    if digits_end(src, from) + 1 <= src.len() {
        lemma_digits_end_bounds(src, digits_end(src, from) + 1);
    }
    law_step_token_text(src, kw, st);
    law_step_only_appends(src, kw, st);
    assert(st.line <= after.line);
    assert(after.line <= st.line + (after.current - st.current));
    if after.tokens.len() == st.tokens.len() + 1 {
        assert(after.tokens.last().line == after.line);
        assert forall|i: int| 0 <= i < st.tokens.len() implies after.tokens[i] == st.tokens[i] by {
            assert(after.tokens[i] == after.tokens.subrange(0, st.tokens.len() as int)[i]);
        }
    } else {
        assert(after.tokens =~= st.tokens);
    }
}

/// The lines of the tokens that the steps of a scan record never decrease.
proof fn lemma_rest_lines(src: Seq<char>, kw: Map<Seq<char>, TokenType>, st: ScanState)
    requires
        line_room(src, st),
        lines_in_order(st.tokens, st.line),
    ensures
        lines_in_order(scan_rest(src, kw, st).tokens, scan_rest(src, kw, st).line),
        scan_rest(src, kw, st).line <= usize::MAX,
    decreases src.len() - st.current,
{
    if 0 <= st.current < src.len() {
        let after = scan_step(src, kw, st);
        lemma_step_lines(src, kw, st);
        if st.current < after.current <= src.len() {
            lemma_rest_lines(src, kw, after);
        } else {
            law_step_token_text(src, kw, st);
        }
    }
}

/// The lines of a scan's tokens never decrease, from the first token to the
/// end-of-file token, as long as the line count cannot outgrow a token's line
/// field.
pub proof fn law_token_lines_never_decrease(src: Seq<char>, kw: Map<Seq<char>, TokenType>, st: ScanState)
    requires
        line_room(src, st),
        lines_in_order(st.tokens, st.line),
    ensures
        forall|i: int, j: int|
            0 <= i <= j < scan_all(src, kw, st).tokens.len() ==> #[trigger] scan_all(src, kw, st).tokens[i].line
                <= #[trigger] scan_all(src, kw, st).tokens[j].line,
{
    lemma_rest_lines(src, kw, st);
    let last = scan_rest(src, kw, st);
    let all = scan_all(src, kw, st).tokens;
    assert forall|i: int, j: int| 0 <= i <= j < all.len() implies #[trigger] all[i].line <= #[trigger] all[j].line by {
        if j < last.tokens.len() {
            assert(all[i] == last.tokens[i]);
            assert(all[j] == last.tokens[j]);
        } else {
            if i < last.tokens.len() {
                assert(all[i] == last.tokens[i]);
            }
        }
    }
}

/// Line breaks of a stretch add up over any point inside it.
proof fn lemma_newlines_split(src: Seq<char>, a: int, b: int, c: int)
    requires
        0 <= a <= b <= c <= src.len(),
    ensures
        newlines(src.subrange(a, c)) == newlines(src.subrange(a, b)) + newlines(src.subrange(b, c)),
    decreases c - b,
{
    if b < c {
        lemma_newlines_split(src, a, b, c - 1);
        assert(src.subrange(a, c).drop_last() =~= src.subrange(a, c - 1));
        assert(src.subrange(b, c).drop_last() =~= src.subrange(b, c - 1));
    } else {
        assert(src.subrange(b, c) =~= Seq::<char>::empty());
    }
}

/// A stretch without a line break has none.
proof fn lemma_no_newlines(src: Seq<char>, a: int, b: int)
    requires
        0 <= a <= b <= src.len(),
        forall|k: int| a <= k < b ==> src[k] != '\n',
    ensures
        newlines(src.subrange(a, b)) == 0,
    decreases b - a,
{
    if a < b {
        lemma_no_newlines(src, a, b - 1);
        assert(src.subrange(a, b).drop_last() =~= src.subrange(a, b - 1));
    }
}

/// One character is one line break exactly when it is `\n`.
proof fn lemma_newlines_one(src: Seq<char>, a: int)
    requires
        0 <= a < src.len(),
    ensures
        newlines(src.subrange(a, a + 1)) == if src[a] == '\n' { 1nat } else { 0nat },
{
    let one = src.subrange(a, a + 1);
    assert(one.drop_last() =~= Seq::<char>::empty());
    assert(newlines(Seq::<char>::empty()) == 0);
    assert(one.last() == src[a]);
    assert(newlines(one) == newlines(one.drop_last()) + if one.last() == '\n' { 1nat } else { 0nat });
}

proof fn lemma_digits_end_digits(src: Seq<char>, i: int)
    requires
        0 <= i <= src.len(),
    ensures
        forall|k: int| i <= k < digits_end(src, i) ==> is_digit_char(src[k]),
    decreases src.len() - i,
{
    if i < src.len() && is_digit_char(src[i]) {
        lemma_digits_end_digits(src, i + 1);
    }
}

proof fn lemma_alnum_end_alnum(src: Seq<char>, i: int)
    requires
        0 <= i <= src.len(),
    ensures
        forall|k: int| i <= k < alnum_end(src, i) ==> is_alnum_char(src[k]),
    decreases src.len() - i,
{
    if i < src.len() && is_alnum_char(src[i]) {
        lemma_alnum_end_alnum(src, i + 1);
    }
}

proof fn lemma_line_end_no_break(src: Seq<char>, i: int)
    requires
        0 <= i <= src.len(),
    ensures
        forall|k: int| i <= k < line_end(src, i) ==> src[k] != '\n',
    decreases src.len() - i,
{
    if i < src.len() && src[i] != '\n' {
        lemma_line_end_no_break(src, i + 1);
    }
}

proof fn lemma_quote_end_at_quote(src: Seq<char>, i: int)
    requires
        0 <= i <= src.len(),
    ensures
        quote_end(src, i) < src.len() ==> src[quote_end(src, i)] == '"',
    decreases src.len() - i,
{
    if i < src.len() && src[i] != '"' {
        lemma_quote_end_at_quote(src, i + 1);
    }
}

proof fn lemma_block_comment_end_at_close(src: Seq<char>, i: int)
    requires
        0 <= i <= src.len(),
    ensures
        block_comment_end(src, i) < src.len() ==> src[block_comment_end(src, i)] == '*'
            && src[block_comment_end(src, i) + 1] == '/',
    decreases src.len() - i,
{
    if i < src.len() && !(src[i] == '*' && i + 1 < src.len() && src[i + 1] == '/') {
        lemma_block_comment_end_at_close(src, i + 1);
    }
}

/// A step reads at least one character, stays inside the source, and ends on
/// the line it started on plus the line breaks among the characters it read.
pub proof fn law_step_counts_lines(src: Seq<char>, kw: Map<Seq<char>, TokenType>, st: ScanState)
    requires
        0 <= st.current < src.len(),
    ensures
        st.current < scan_step(src, kw, st).current <= src.len(),
        scan_step(src, kw, st).line == st.line + newlines(src.subrange(st.current, scan_step(src, kw, st).current)),
{
    let after = scan_step(src, kw, st);
    let cur = st.current;
    let from = cur + 1;
    let c = src[cur];
    lemma_quote_end_bounds(src, from);
    lemma_digits_end_bounds(src, from);
    lemma_alnum_end_bounds(src, from);
    lemma_newlines_one(src, cur);
    if from + 1 <= src.len() {
        lemma_block_comment_end_bounds(src, from + 1);
        lemma_line_end_bounds(src, from + 1);
    }
    if digits_end(src, from) + 1 <= src.len() {
        lemma_digits_end_bounds(src, digits_end(src, from) + 1);
    }
    if single_char_token(c) is Some || c == ':' || c == '-' || c == '!' || c == '=' || c == '<' || c == '>' {
        if after.current == cur + 2 {
            lemma_newlines_one(src, cur + 1);
            lemma_newlines_split(src, cur, cur + 1, cur + 2);
        }
    } else if c == '/' {
        if char_at_is(src, from, '/') {
            lemma_line_end_no_break(src, from + 1);
            lemma_no_newlines(src, cur, after.current);
        } else if char_at_is(src, from, '*') {
            let end = block_comment_end(src, from + 1);
            lemma_block_comment_end_at_close(src, from + 1);
            lemma_no_newlines(src, cur, from + 1);
            lemma_newlines_split(src, cur, from + 1, end);
            if end < src.len() {
                lemma_no_newlines(src, end, end + 2);
                lemma_newlines_split(src, cur, end, end + 2);
            }
        }
    } else if c == '"' {
        let end = quote_end(src, from);
        lemma_quote_end_at_quote(src, from);
        lemma_newlines_split(src, cur, from, end);
        if end < src.len() {
            lemma_newlines_one(src, end);
            lemma_newlines_split(src, cur, end, end + 1);
        }
    } else if c == ' ' || c == '\r' || c == '\t' || c == '\n' || (c == '\0' && from >= src.len()) {
    } else if is_digit_char(c) {
        let int_end = digits_end(src, from);
        lemma_digits_end_digits(src, from);
        if char_at_is(src, int_end, '.') && int_end + 1 < src.len() && is_digit_char(src[int_end + 1]) {
            lemma_digits_end_digits(src, int_end + 1);
        }
        lemma_no_newlines(src, cur, after.current);
    } else if is_alpha_char(c) {
        lemma_alnum_end_alnum(src, from);
        lemma_no_newlines(src, cur, after.current);
    }
}

/// The steps of a scan read to the end of the source and count every line break.
proof fn lemma_rest_counts_lines(src: Seq<char>, kw: Map<Seq<char>, TokenType>, st: ScanState)
    requires
        0 <= st.current <= src.len(),
    ensures
        scan_rest(src, kw, st).current == src.len(),
        scan_rest(src, kw, st).line == st.line + newlines(src.subrange(st.current, src.len() as int)),
    decreases src.len() - st.current,
{
    if st.current < src.len() {
        let after = scan_step(src, kw, st);
        law_step_counts_lines(src, kw, st);
        lemma_rest_counts_lines(src, kw, after);
        lemma_newlines_split(src, st.current, after.current, src.len() as int);
    } else {
        assert(src.subrange(st.current, src.len() as int) =~= Seq::<char>::empty());
    }
}

/// A scan reads the whole source: it ends at the end of the text, on the line
/// it started on plus the number of line breaks read, and its end-of-file
/// token carries that line (when the line fits in a token's line field).
pub proof fn law_scan_reads_to_the_end(src: Seq<char>, kw: Map<Seq<char>, TokenType>, st: ScanState)
    requires
        0 <= st.current <= src.len(),
    ensures
        scan_all(src, kw, st).current == src.len(),
        scan_all(src, kw, st).line == st.line + newlines(src.subrange(st.current, src.len() as int)),
        scan_all(src, kw, st).line <= usize::MAX ==> scan_all(src, kw, st).tokens.last().line
            == scan_all(src, kw, st).line,
{
    lemma_rest_counts_lines(src, kw, st);
}

/// A fresh scan of a text ends at its end, and its end-of-file token is on
/// line 1 plus the number of line breaks in the text.
pub proof fn law_fresh_scan_ends_on_last_line(src: Seq<char>, kw: Map<Seq<char>, TokenType>, errors: Seq<Seq<char>>)
    requires
        src.len() < usize::MAX,
    ensures
        scan_all(src, kw, initial_state(errors)).current == src.len(),
        scan_all(src, kw, initial_state(errors)).tokens.last().line == 1 + newlines(src),
{
    law_scan_reads_to_the_end(src, kw, initial_state(errors));
    assert(src.subrange(0, src.len() as int) =~= src);
    lemma_newlines_bound(src);
}

/// The token kind of a two-character operator, given its two characters.
pub open spec fn two_char_operator(first: char, second: char) -> Option<TokenType> {
    if first == ':' && second == ':' {
        Some(TokenType::DoubleColon)
    } else if first == '-' && second == '>' {
        Some(TokenType::Arrow)
    } else if first == '!' && second == '=' {
        Some(TokenType::BangEqual)
    } else if first == '=' && second == '=' {
        Some(TokenType::EqualEqual)
    } else if first == '=' && second == '>' {
        Some(TokenType::FatArrow)
    } else if first == '<' && second == '=' {
        Some(TokenType::LessEqual)
    } else if first == '>' && second == '=' {
        Some(TokenType::GreaterEqual)
    } else {
        None
    }
}

/// A character that is a token by itself is read as that token: one character
/// further, on the same line, with that character as its text, and no error.
pub proof fn law_single_character_token(src: Seq<char>, kw: Map<Seq<char>, TokenType>, st: ScanState)
    requires
        0 <= st.current < src.len(),
        single_char_token(src[st.current]) is Some,
    ensures
        scan_step(src, kw, st) == (ScanState {
            current: st.current + 1,
            tokens: st.tokens.push(
                TokenView {
                    token_type: single_char_token(src[st.current])->0,
                    lexeme: seq![src[st.current]],
                    literal: None,
                    line: st.line as usize,
                },
            ),
            ..st
        }),
{
    assert(src.subrange(st.current, st.current + 1) =~= seq![src[st.current]]);
}

/// A two-character operator is read as one token of its kind: two characters
/// further, on the same line, with both characters as its text, and no error.
pub proof fn law_two_character_operator(src: Seq<char>, kw: Map<Seq<char>, TokenType>, st: ScanState)
    requires
        0 <= st.current,
        st.current + 1 < src.len(),
        two_char_operator(src[st.current], src[st.current + 1]) is Some,
    ensures
        scan_step(src, kw, st) == (ScanState {
            current: st.current + 2,
            tokens: st.tokens.push(
                TokenView {
                    token_type: two_char_operator(src[st.current], src[st.current + 1])->0,
                    lexeme: seq![src[st.current], src[st.current + 1]],
                    literal: None,
                    line: st.line as usize,
                },
            ),
            ..st
        }),
{
    assert(src.subrange(st.current, st.current + 2) =~= seq![src[st.current], src[st.current + 1]]);
}

/// A string literal whose closing quote is at `end` is read as one string
/// token: up to just past that quote, counting the line breaks inside it, with
/// the quoted text as its text and the characters between the quotes as its
/// value, and no error.
pub proof fn law_string_literal(src: Seq<char>, kw: Map<Seq<char>, TokenType>, st: ScanState)
    requires
        0 <= st.current < src.len(),
        src[st.current] == '"',
        quote_end(src, st.current + 1) < src.len(),
    ensures
        ({
            let end = quote_end(src, st.current + 1);
            let line = st.line + newlines(src.subrange(st.current + 1, end));
            scan_step(src, kw, st) == (ScanState {
                current: end + 1,
                line,
                tokens: st.tokens.push(
                    TokenView {
                        token_type: TokenType::String,
                        lexeme: src.subrange(st.current, end + 1),
                        literal: Some(LiteralView::Str(src.subrange(st.current + 1, end))),
                        line: line as usize,
                    },
                ),
                errors: st.errors,
            })
        }),
{
}

proof fn lemma_digits_end_stops(src: Seq<char>, i: int)
    requires
        0 <= i <= src.len(),
    ensures
        digits_end(src, i) == src.len() || !is_digit_char(src[digits_end(src, i)]),
    decreases src.len() - i,
{
    if i < src.len() && is_digit_char(src[i]) {
        lemma_digits_end_stops(src, i + 1);
    }
}

/// A number is read as far as its digits go: the step that starts at a digit
/// reads only digits and at most one `.` (which a digit follows), and stops
/// where no digit follows, so a number is never cut short. What it records is
/// one number token with exactly that text, or an error.
pub proof fn law_number_takes_every_digit(src: Seq<char>, kw: Map<Seq<char>, TokenType>, st: ScanState)
    requires
        0 <= st.current < src.len(),
        is_digit_char(src[st.current]),
    ensures
        ({
            let after = scan_step(src, kw, st);
            &&& st.current < after.current <= src.len()
            &&& after.current == src.len() || !is_digit_char(src[after.current])
            &&& forall|k: int|
                st.current <= k < after.current ==> is_digit_char(#[trigger] src[k]) || (src[k] == '.' && k + 1
                    < after.current && is_digit_char(src[k + 1]))
            &&& forall|k1: int, k2: int|
                st.current <= k1 < k2 < after.current && #[trigger] src[k1] == '.' ==> #[trigger] src[k2] != '.'
            &&& after.line == st.line
            &&& after.tokens.len() <= st.tokens.len() + 1
            &&& after.tokens.len() == st.tokens.len() + 1 ==> after.tokens.last().token_type == TokenType::Number
                && after.tokens.last().lexeme == src.subrange(st.current, after.current)
            &&& after.tokens.len() == st.tokens.len() + 1 ==> {
                let text = src.subrange(st.current, after.current);
                ||| text.contains('.') && after.tokens.last().literal == Some(LiteralView::Float(text))
                ||| !text.contains('.') && digits_value(text) <= i64::MAX && after.tokens.last().literal == Some(
                    LiteralView::Integer(digits_value(text) as i64),
                )
            }
            &&& after.tokens.len() == st.tokens.len() ==> {
                let text = src.subrange(st.current, after.current);
                &&& !text.contains('.')
                &&& digits_value(text) > i64::MAX
                &&& after.errors == st.errors.push(error_entry(st.line, "Invalid integer number: '"@ + text + "'"@))
            }
        }),
{
    let from = st.current + 1;
    lemma_digits_end_bounds(src, from);
    lemma_digits_end_digits(src, from);
    lemma_digits_end_stops(src, from);
    let int_end = digits_end(src, from);
    if int_end + 1 <= src.len() {
        lemma_digits_end_bounds(src, int_end + 1);
        lemma_digits_end_digits(src, int_end + 1);
        lemma_digits_end_stops(src, int_end + 1);
    }
    let after = scan_step(src, kw, st);
    let text = src.subrange(st.current, after.current);
    if char_at_is(src, int_end, '.') && int_end + 1 < src.len() && is_digit_char(src[int_end + 1]) {
        assert(text[int_end - st.current] == '.');
    } else {
        assert forall|k: int| 0 <= k < text.len() implies text[k] != '.' by {
            assert(text[k] == src[st.current + k]);
        }
    }
}

/// The token kind of a word: its reserved kind when `kw` reserves it, else an identifier.
pub open spec fn word_kind(kw: Map<Seq<char>, TokenType>, word: Seq<char>) -> TokenType {
    if kw.contains_key(word) {
        kw[word]
    } else {
        TokenType::Identifier
    }
}

/// A word starting with a letter or `_` is read whole: the step reads letters,
/// digits and `_` as far as they go and records one token with exactly that
/// text, whose kind is the reserved word's when it is one and an identifier
/// otherwise. Only `true`, `false` and `null` carry a value, the one they name.
pub proof fn law_words_are_read_whole(src: Seq<char>, kw: Map<Seq<char>, TokenType>, st: ScanState)
    requires
        0 <= st.current < src.len(),
        is_alpha_char(src[st.current]),
    ensures
        ({
            let after = scan_step(src, kw, st);
            let word = src.subrange(st.current, after.current);
            let kind = word_kind(kw, word);
            &&& st.current < after.current <= src.len()
            &&& after.current == src.len() || !is_alnum_char(src[after.current])
            &&& forall|k: int| st.current <= k < after.current ==> is_alnum_char(#[trigger] src[k])
            &&& after.line == st.line
            &&& after.errors == st.errors
            &&& after.tokens.len() == st.tokens.len() + 1
            &&& after.tokens.last().lexeme == word
            &&& after.tokens.last().token_type == kind
            &&& after.tokens.last().literal == (if kind == TokenType::True {
                Some(LiteralView::Boolean(true))
            } else if kind == TokenType::False {
                Some(LiteralView::Boolean(false))
            } else if kind == TokenType::Null {
                Some(LiteralView::Null)
            } else {
                None
            })
        }),
{
    let from = st.current + 1;
    lemma_alnum_end_bounds(src, from);
    lemma_alnum_end_alnum(src, from);
    lemma_alnum_end_stops(src, from);
    assert(!is_digit_char(src[st.current]));
}

proof fn lemma_alnum_end_stops(src: Seq<char>, i: int)
    requires
        0 <= i <= src.len(),
    ensures
        alnum_end(src, i) == src.len() || !is_alnum_char(src[alnum_end(src, i)]),
    decreases src.len() - i,
{
    if i < src.len() && is_alnum_char(src[i]) {
        lemma_alnum_end_stops(src, i + 1);
    }
}

} // verus!

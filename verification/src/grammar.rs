//! What a scan of a source text yields, stated over the sequence of its
//! characters.
//!
//! The text is cut, from left to right, into items: a token, a comment, a
//! stretch of blank space, or a piece in error. Each item starts where the
//! one before it ends; the longest form of an operator wins.

use vstd::prelude::*;
use crate::chars::{
    is_blank,
    is_comparison_start,
    is_digit,
    is_identifier_part,
    is_identifier_start,
};
use crate::number::is_number_text;
use crate::token::{LexError, LiteralView, TokenKind, TokenView};

verus! {

/// The number of line breaks among the first `pos` characters of `s`.
pub open spec fn newlines_before(s: Seq<char>, pos: int) -> nat
    decreases pos,
{
    if pos <= 0 {
        0
    } else {
        newlines_before(s, pos - 1) + if s[pos - 1] == '\n' {
            1nat
        } else {
            0nat
        }
    }
}

/// The line, counted from 1, that position `pos` of `s` lies on.
pub open spec fn line_at(s: Seq<char>, pos: int) -> nat {
    1 + newlines_before(s, pos)
}

/// Whether the character after position `pos` is `c`.
pub open spec fn followed_by(s: Seq<char>, pos: int, c: char) -> bool {
    pos + 1 < s.len() && s[pos + 1] == c
}

/// The end of the run of digits and points that starts at `i`.
pub open spec fn number_end(s: Seq<char>, i: int) -> int
    decreases s.len() - i,
{
    if 0 <= i < s.len() && (is_digit(s[i]) || s[i] == '.') {
        number_end(s, i + 1)
    } else {
        i
    }
}

/// The end of the run of identifier characters that starts at `i`.
pub open spec fn identifier_end(s: Seq<char>, i: int) -> int
    decreases s.len() - i,
{
    if 0 <= i < s.len() && is_identifier_part(s[i]) {
        identifier_end(s, i + 1)
    } else {
        i
    }
}

/// The end of a comment whose text starts at `i`: just behind the next line
/// break, or the end of input where there is none.
pub open spec fn comment_end(s: Seq<char>, i: int) -> int
    decreases s.len() - i,
{
    if i < 0 || i >= s.len() {
        s.len() as int
    } else if s[i] == '\n' {
        i + 1
    } else {
        comment_end(s, i + 1)
    }
}

/// Where the body of a string literal that is read from `i` stops: at the
/// closing quote, at a line break that no backslash precedes, or at the end
/// of input. A backslash takes the character after it along.
pub open spec fn string_stop(s: Seq<char>, i: int) -> int
    decreases s.len() - i,
{
    if i < 0 || i >= s.len() {
        s.len() as int
    } else if s[i] == '"' || s[i] == '\n' {
        i
    } else if s[i] == '\\' {
        if i + 1 < s.len() {
            string_stop(s, i + 2)
        } else {
            s.len() as int
        }
    } else {
        string_stop(s, i + 1)
    }
}

/// The character that stands for `c` after a backslash.
pub open spec fn unescape(c: char) -> char {
    if c == 'n' {
        '\n'
    } else if c == 't' {
        '\t'
    } else {
        c
    }
}

/// The value of the string body `s[i..stop]`, escapes resolved.
pub open spec fn string_value(s: Seq<char>, i: int, stop: int) -> Seq<char>
    decreases stop - i,
{
    if i < 0 || i >= stop {
        Seq::empty()
    } else if s[i] == '\\' && i + 1 < stop {
        seq![unescape(s[i + 1])] + string_value(s, i + 2, stop)
    } else {
        seq![s[i]] + string_value(s, i + 1, stop)
    }
}

/// Whether the string literal that opens at `pos` is closed by a quote.
pub open spec fn string_closed(s: Seq<char>, pos: int) -> bool {
    let stop = string_stop(s, pos + 1);
    stop < s.len() && s[stop] == '"'
}

/// The kind of the one-character token that `c` is, where it is one
/// whatever follows.
pub open spec fn punctuation_kind(c: char) -> Option<TokenKind> {
    if c == '(' {
        Some(TokenKind::LeftParen)
    } else if c == ')' {
        Some(TokenKind::RightParen)
    } else if c == '{' {
        Some(TokenKind::LeftBrace)
    } else if c == '}' {
        Some(TokenKind::RightBrace)
    } else if c == '*' {
        Some(TokenKind::Star)
    } else if c == '+' {
        Some(TokenKind::Plus)
    } else if c == '-' {
        Some(TokenKind::Minus)
    } else if c == ',' {
        Some(TokenKind::Comma)
    } else if c == '.' {
        Some(TokenKind::Dot)
    } else if c == ';' {
        Some(TokenKind::Semicolon)
    } else {
        None
    }
}

/// The kind of the operator that starts with `c`, alone or followed by `=`.
pub open spec fn comparison_kind(c: char, with_equal: bool) -> TokenKind {
    if c == '=' {
        if with_equal {
            TokenKind::EqualEqual
        } else {
            TokenKind::Equal
        }
    } else if c == '!' {
        if with_equal {
            TokenKind::BangEqual
        } else {
            TokenKind::Bang
        }
    } else if c == '<' {
        if with_equal {
            TokenKind::LessEqual
        } else {
            TokenKind::Less
        }
    } else {
        if with_equal {
            TokenKind::GreaterEqual
        } else {
            TokenKind::Greater
        }
    }
}

/// Whether `t` is one of the reserved words.
pub open spec fn is_keyword_text(t: Seq<char>) -> bool {
    t == "and"@ || t == "class"@ || t == "else"@ || t == "false"@ || t == "for"@ || t == "fun"@
        || t == "if"@ || t == "nil"@ || t == "or"@ || t == "print"@ || t == "return"@ || t
        == "super"@ || t == "this"@ || t == "true"@ || t == "var"@ || t == "while"@
}

/// The text that denotes the value of a number token: its lexeme, or `0`
/// where the lexeme denotes no number.
pub open spec fn number_value_text(lexeme: Seq<char>) -> Seq<char> {
    if is_number_text(lexeme) {
        lexeme
    } else {
        "0"@
    }
}

/// Whether an item that starts with `c` is in error because no rule takes
/// `c`.
pub open spec fn is_unexpected(c: char) -> bool {
    &&& punctuation_kind(c) is None
    &&& !is_comparison_start(c)
    &&& c != '/'
    &&& !is_digit(c)
    &&& !is_identifier_start(c)
    &&& c != '"'
    &&& !is_blank(c)
    &&& c != '\n'
}

/// The end of the item that starts at `pos`.
pub open spec fn item_end(s: Seq<char>, pos: int) -> int {
    let c = s[pos];
    if is_comparison_start(c) {
        if followed_by(s, pos, '=') {
            pos + 2
        } else {
            pos + 1
        }
    } else if c == '/' {
        if followed_by(s, pos, '/') {
            comment_end(s, pos + 2)
        } else {
            pos + 1
        }
    } else if is_digit(c) {
        number_end(s, pos + 1)
    } else if is_identifier_start(c) {
        identifier_end(s, pos + 1)
    } else if c == '"' {
        let stop = string_stop(s, pos + 1);
        if stop < s.len() {
            stop + 1
        } else {
            s.len() as int
        }
    } else {
        pos + 1
    }
}

/// The kind of the token that the item at `pos` is, if it is one.
pub open spec fn kind_at(s: Seq<char>, pos: int) -> Option<TokenKind> {
    let c = s[pos];
    if punctuation_kind(c) is Some {
        punctuation_kind(c)
    } else if is_comparison_start(c) {
        Some(comparison_kind(c, followed_by(s, pos, '=')))
    } else if c == '/' {
        if followed_by(s, pos, '/') {
            None
        } else {
            Some(TokenKind::Slash)
        }
    } else if is_digit(c) {
        Some(TokenKind::Number)
    } else if is_identifier_start(c) {
        if is_keyword_text(s.subrange(pos, item_end(s, pos))) {
            Some(TokenKind::Keyword)
        } else {
            Some(TokenKind::Identifier)
        }
    } else if c == '"' && string_closed(s, pos) {
        Some(TokenKind::String)
    } else {
        None
    }
}

/// The value of the token at `pos`.
pub open spec fn literal_at(s: Seq<char>, pos: int) -> LiteralView {
    let c = s[pos];
    if is_digit(c) {
        LiteralView::Number(number_value_text(s.subrange(pos, item_end(s, pos))))
    } else if c == '"' {
        LiteralView::Text(string_value(s, pos + 1, string_stop(s, pos + 1)))
    } else {
        LiteralView::Null
    }
}

/// The token that the item at `pos` is, if it is one.
pub open spec fn token_at(s: Seq<char>, pos: int) -> Option<TokenView> {
    match kind_at(s, pos) {
        Some(kind) => Some(
            TokenView {
                kind,
                lexeme: s.subrange(pos, item_end(s, pos)),
                literal: literal_at(s, pos),
                line: line_at(s, pos),
            },
        ),
        None => None,
    }
}

/// The error that the item at `pos` is reported with, if it is in error.
/// An open string is reported at the line it starts on.
pub open spec fn error_at(s: Seq<char>, pos: int) -> Option<LexError> {
    let c = s[pos];
    if c == '"' && !string_closed(s, pos) {
        Some(LexError::UnterminatedString { line: line_at(s, pos) as usize })
    } else if is_unexpected(c) {
        Some(LexError::UnexpectedCharacter { ch: c, line: line_at(s, pos) as usize })
    } else {
        None
    }
}

/// What the item at `pos` adds to the tokens: one token or none.
pub open spec fn item_tokens(s: Seq<char>, pos: int) -> Seq<TokenView> {
    match token_at(s, pos) {
        Some(t) => seq![t],
        None => Seq::empty(),
    }
}

/// What the item at `pos` adds to the errors: one error or none.
pub open spec fn item_errors(s: Seq<char>, pos: int) -> Seq<LexError> {
    match error_at(s, pos) {
        Some(e) => seq![e],
        None => Seq::empty(),
    }
}

/// The token that ends every scan of `s`.
pub open spec fn end_token(s: Seq<char>) -> TokenView {
    TokenView {
        kind: TokenKind::Eof,
        lexeme: Seq::empty(),
        literal: LiteralView::Null,
        line: line_at(s, s.len() as int),
    }
}

/// The tokens of `s` from position `pos` on, the end token last.
pub open spec fn tokens_from(s: Seq<char>, pos: int) -> Seq<TokenView>
    decreases s.len() - pos,
    via tokens_from_decreases
{
    if pos < 0 || pos >= s.len() {
        seq![end_token(s)]
    } else {
        item_tokens(s, pos) + tokens_from(s, item_end(s, pos))
    }
}

#[via_fn]
proof fn tokens_from_decreases(s: Seq<char>, pos: int) {
    if 0 <= pos < s.len() {
        lemma_item_end_bounds(s, pos);
    }
}

/// The errors of `s` from position `pos` on, in the order they are found.
pub open spec fn errors_from(s: Seq<char>, pos: int) -> Seq<LexError>
    decreases s.len() - pos,
    via errors_from_decreases
{
    if pos < 0 || pos >= s.len() {
        Seq::empty()
    } else {
        item_errors(s, pos) + errors_from(s, item_end(s, pos))
    }
}

#[via_fn]
proof fn errors_from_decreases(s: Seq<char>, pos: int) {
    if 0 <= pos < s.len() {
        lemma_item_end_bounds(s, pos);
    }
}

/// The tokens that a scan of `s` yields.
pub open spec fn scan_tokens(s: Seq<char>) -> Seq<TokenView> {
    tokens_from(s, 0)
}

/// The errors that a scan of `s` reports.
pub open spec fn scan_errors(s: Seq<char>) -> Seq<LexError> {
    errors_from(s, 0)
}

pub proof fn lemma_number_end_bounds(s: Seq<char>, i: int)
    requires
        0 <= i <= s.len(),
    ensures
        i <= number_end(s, i) <= s.len(),
    decreases s.len() - i,
{
    if i < s.len() && (is_digit(s[i]) || s[i] == '.') {
        lemma_number_end_bounds(s, i + 1);
    }
}

pub proof fn lemma_identifier_end_bounds(s: Seq<char>, i: int)
    requires
        0 <= i <= s.len(),
    ensures
        i <= identifier_end(s, i) <= s.len(),
    decreases s.len() - i,
{
    if i < s.len() && is_identifier_part(s[i]) {
        lemma_identifier_end_bounds(s, i + 1);
    }
}

pub proof fn lemma_comment_end_bounds(s: Seq<char>, i: int)
    requires
        0 <= i <= s.len(),
    ensures
        i <= comment_end(s, i) <= s.len(),
    decreases s.len() - i,
{
    if i < s.len() && s[i] != '\n' {
        lemma_comment_end_bounds(s, i + 1);
    }
}

pub proof fn lemma_string_stop_bounds(s: Seq<char>, i: int)
    requires
        0 <= i,
    ensures
        i <= s.len() ==> i <= string_stop(s, i),
        string_stop(s, i) <= s.len(),
    decreases s.len() - i,
{
    if i < s.len() && s[i] != '"' && s[i] != '\n' {
        if s[i] == '\\' {
            if i + 1 < s.len() {
                lemma_string_stop_bounds(s, i + 2);
            }
        } else {
            lemma_string_stop_bounds(s, i + 1);
        }
    }
}

/// Every item is at least one character long and ends within the text.
pub proof fn lemma_item_end_bounds(s: Seq<char>, pos: int)
    requires
        0 <= pos < s.len(),
    ensures
        pos < item_end(s, pos) <= s.len(),
{
    lemma_number_end_bounds(s, pos + 1);
    lemma_identifier_end_bounds(s, pos + 1);
    lemma_string_stop_bounds(s, pos + 1);
    if pos + 2 <= s.len() {
        lemma_comment_end_bounds(s, pos + 2);
    }
}

/// There are no more line breaks before a position than characters.
pub proof fn lemma_newlines_bound(s: Seq<char>, pos: int)
    requires
        0 <= pos,
    ensures
        newlines_before(s, pos) <= pos,
    decreases pos,
{
    if pos > 0 {
        lemma_newlines_bound(s, pos - 1);
    }
}

/// A later position lies on no earlier line.
pub proof fn lemma_line_monotone(s: Seq<char>, a: int, b: int)
    requires
        a <= b,
    ensures
        line_at(s, a) <= line_at(s, b),
    decreases b - a,
{
    if a < b {
        lemma_line_monotone(s, a, b - 1);
    }
}

} // verus!

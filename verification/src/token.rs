//! Tokens, their literal values and the errors a scan can report.

use vstd::prelude::*;
use crate::chars::{decimal, decimal_text};

verus! {

/// The closed set of token kinds.
#[derive(Clone, Copy, Debug, PartialEq, Eq, Structural)]
pub enum TokenKind {
    LeftParen,
    RightParen,
    LeftBrace,
    RightBrace,
    Star,
    Plus,
    Minus,
    Comma,
    Dot,
    Semicolon,
    Slash,
    Equal,
    EqualEqual,
    Bang,
    BangEqual,
    Less,
    LessEqual,
    Greater,
    GreaterEqual,
    Number,
    String,
    Identifier,
    Keyword,
    Eof,
}

impl TokenKind {
    /// The upper-case name under which a kind is printed.
    pub open spec fn name_text(self) -> Seq<char> {
        match self {
            TokenKind::LeftParen => "LEFT_PAREN"@,
            TokenKind::RightParen => "RIGHT_PAREN"@,
            TokenKind::LeftBrace => "LEFT_BRACE"@,
            TokenKind::RightBrace => "RIGHT_BRACE"@,
            TokenKind::Star => "STAR"@,
            TokenKind::Plus => "PLUS"@,
            TokenKind::Minus => "MINUS"@,
            TokenKind::Comma => "COMMA"@,
            TokenKind::Dot => "DOT"@,
            TokenKind::Semicolon => "SEMICOLON"@,
            TokenKind::Slash => "SLASH"@,
            TokenKind::Equal => "EQUAL"@,
            TokenKind::EqualEqual => "EQUAL_EQUAL"@,
            TokenKind::Bang => "BANG"@,
            TokenKind::BangEqual => "BANG_EQUAL"@,
            TokenKind::Less => "LESS"@,
            TokenKind::LessEqual => "LESS_EQUAL"@,
            TokenKind::Greater => "GREATER"@,
            TokenKind::GreaterEqual => "GREATER_EQUAL"@,
            TokenKind::Number => "NUMBER"@,
            TokenKind::String => "STRING"@,
            TokenKind::Identifier => "IDENTIFIER"@,
            TokenKind::Keyword => "KEYWORD"@,
            TokenKind::Eof => "EOF"@,
        }
    }

    pub fn name(&self) -> (s: &'static str)
        ensures
            s@ == self.name_text(),
    {
        match self {
            TokenKind::LeftParen => "LEFT_PAREN",
            TokenKind::RightParen => "RIGHT_PAREN",
            TokenKind::LeftBrace => "LEFT_BRACE",
            TokenKind::RightBrace => "RIGHT_BRACE",
            TokenKind::Star => "STAR",
            TokenKind::Plus => "PLUS",
            TokenKind::Minus => "MINUS",
            TokenKind::Comma => "COMMA",
            TokenKind::Dot => "DOT",
            TokenKind::Semicolon => "SEMICOLON",
            TokenKind::Slash => "SLASH",
            TokenKind::Equal => "EQUAL",
            TokenKind::EqualEqual => "EQUAL_EQUAL",
            TokenKind::Bang => "BANG",
            TokenKind::BangEqual => "BANG_EQUAL",
            TokenKind::Less => "LESS",
            TokenKind::LessEqual => "LESS_EQUAL",
            TokenKind::Greater => "GREATER",
            TokenKind::GreaterEqual => "GREATER_EQUAL",
            TokenKind::Number => "NUMBER",
            TokenKind::String => "STRING",
            TokenKind::Identifier => "IDENTIFIER",
            TokenKind::Keyword => "KEYWORD",
            TokenKind::Eof => "EOF",
        }
    }
}

/// The decoded value of a token.
#[derive(Clone, Debug, PartialEq, Eq)]
pub enum Literal {
    /// No value: every token that is neither a string nor a number.
    Null,
    /// The characters of a string literal, escapes resolved.
    Text(String),
    /// A number, held as the decimal text that denotes it.
    Number(String),
}

/// What a `Literal` is, over sequences of characters.
pub enum LiteralView {
    Null,
    Text(Seq<char>),
    Number(Seq<char>),
}

impl View for Literal {
    type V = LiteralView;

    open spec fn view(&self) -> LiteralView {
        match self {
            Literal::Null => LiteralView::Null,
            Literal::Text(s) => LiteralView::Text(s@),
            Literal::Number(s) => LiteralView::Number(s@),
        }
    }
}

/// One token of the source text.
#[derive(Clone, Debug, PartialEq, Eq)]
pub struct Token {
    pub kind: TokenKind,
    /// The exact piece of source text that produced the token.
    pub lexeme: String,
    pub literal: Literal,
    /// The line on which the token starts, counted from 1.
    pub line: usize,
}

/// What a `Token` is, over sequences of characters.
pub struct TokenView {
    pub kind: TokenKind,
    pub lexeme: Seq<char>,
    pub literal: LiteralView,
    pub line: nat,
}

impl View for Token {
    type V = TokenView;

    open spec fn view(&self) -> TokenView {
        TokenView {
            kind: self.kind,
            lexeme: self.lexeme@,
            literal: self.literal@,
            line: self.line as nat,
        }
    }
}

/// The text under which a value is shown: `null` where there is none, the
/// characters of a string, and `number` for a number.
pub open spec fn shown_literal(literal: LiteralView, number: Seq<char>) -> Seq<char> {
    match literal {
        LiteralView::Null => "null"@,
        LiteralView::Text(text) => text,
        LiteralView::Number(_) => number,
    }
}

/// The output line of a token: the name of its kind, its lexeme and its
/// value, with one space between them.
pub open spec fn output_text(token: TokenView, number: Seq<char>) -> Seq<char> {
    token.kind.name_text() + seq![' '] + token.lexeme + seq![' '] + shown_literal(
        token.literal,
        number,
    )
}

impl Token {
    /// Writes the output line of the token. `number` is the text under which
    /// the value of a number token is shown; no other token uses it.
    pub fn output_line(&self, number: &str) -> (r: String)
        ensures
            r@ == output_text(self@, number@),
    {
        let mut r = String::from_str(self.kind.name());
        r.push(' ');
        r.append(self.lexeme.as_str());
        r.push(' ');
        match &self.literal {
            Literal::Null => r.append("null"),
            Literal::Text(text) => r.append(text.as_str()),
            Literal::Number(_) => r.append(number),
        }
        r
    }
}

/// The views of a sequence of tokens, in order.
pub open spec fn token_views(tokens: Seq<Token>) -> Seq<TokenView> {
    Seq::new(tokens.len(), |i: int| tokens[i]@)
}

/// A lexical error, with the line it is reported at.
#[derive(Clone, Copy, Debug, PartialEq, Eq, Structural)]
pub enum LexError {
    /// A string literal that no quote closes on its line.
    UnterminatedString { line: usize },
    /// A character that starts no token.
    UnexpectedCharacter { ch: char, line: usize },
}

impl LexError {
    /// The line the error is reported at.
    pub open spec fn line_of(self) -> usize {
        match self {
            LexError::UnterminatedString { line } => line,
            LexError::UnexpectedCharacter { line, .. } => line,
        }
    }

    /// The message of the error, without its line.
    pub open spec fn message_text(self) -> Seq<char> {
        match self {
            LexError::UnterminatedString { .. } => "Unterminated string."@,
            LexError::UnexpectedCharacter { ch, .. } => "Unexpected character: "@.push(ch),
        }
    }

    /// The line under which the error is reported: `[line N] Error: `
    /// and the message.
    pub open spec fn report_text(self) -> Seq<char> {
        "[line "@ + decimal_text(self.line_of() as nat) + "] Error: "@ + self.message_text()
    }

    pub fn line(&self) -> (n: usize)
        ensures
            n == self.line_of(),
    {
        match self {
            LexError::UnterminatedString { line } => *line,
            LexError::UnexpectedCharacter { line, .. } => *line,
        }
    }

    pub fn message(&self) -> (s: String)
        ensures
            s@ == self.message_text(),
    {
        match self {
            LexError::UnterminatedString { .. } => String::from_str("Unterminated string."),
            LexError::UnexpectedCharacter { ch, .. } => {
                let mut s = String::from_str("Unexpected character: ");
                s.push(*ch);
                s
            },
        }
    }

    pub fn report(&self) -> (s: String)
        ensures
            s@ == self.report_text(),
    {
        let mut s = String::from_str("[line ");
        s.append(decimal(self.line()).as_str());
        s.append("] Error: ");
        s.append(self.message().as_str());
        s
    }
}

} // verus!

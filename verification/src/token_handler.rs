//! The scanner: one pass over a source text that collects its tokens and
//! its lexical errors.

use vstd::prelude::*;
use crate::chars::{
    char_is_digit,
    char_is_identifier_part,
    char_is_identifier_start,
    is_comparison_start,
    same_text,
    sub_chars,
    to_chars,
    to_text,
};
use crate::grammar::{
    comment_end,
    comparison_kind,
    error_at,
    errors_from,
    identifier_end,
    is_keyword_text,
    item_end,
    item_errors,
    item_tokens,
    lemma_item_end_bounds,
    lemma_newlines_bound,
    lemma_string_stop_bounds,
    line_at,
    number_end,
    punctuation_kind,
    scan_errors,
    scan_tokens,
    string_stop,
    string_value,
    tokens_from,
    unescape,
};
use crate::number::is_number;
use crate::scan_laws::{ends_with_one_eof, lemma_scan_shape, lines_ordered, lines_within};
use crate::token::{token_views, LexError, Literal, Token, TokenKind, TokenView};

verus! {

/// The state of a scan: the line reached, whether an error was met, and
/// what was collected.
pub struct TokenHandler {
    pub line_number: usize,
    pub has_error: bool,
    pub tokens: Vec<Token>,
    pub errors: Vec<LexError>,
}

impl Default for TokenHandler {
    fn default() -> (r: Self)
        ensures
            r.line_number == 1,
            !r.has_error,
            r.tokens_view() == Seq::<TokenView>::empty(),
            r.errors_view() == Seq::<LexError>::empty(),
    {
        let r = TokenHandler { line_number: 1, has_error: false, tokens: Vec::new(), errors: Vec::new() };
        assert(token_views(r.tokens@) =~= Seq::<TokenView>::empty());
        r
    }
}

fn punctuation(c: char) -> (r: Option<TokenKind>)
    ensures
        r == punctuation_kind(c),
{
    if c == '(' {
        Some(TokenKind::LeftParen)
    } else if c == ')' {
        Some(TokenKind::RightParen)
    } else if c == '{' {
        Some(TokenKind::LeftBrace)
    } else if c == '}' {
        Some(TokenKind::RightBrace)
    } else if c == '*' {
        Some(TokenKind::Star)
    } else if c == '+' {
        Some(TokenKind::Plus)
    } else if c == '-' {
        Some(TokenKind::Minus)
    } else if c == ',' {
        Some(TokenKind::Comma)
    } else if c == '.' {
        Some(TokenKind::Dot)
    } else if c == ';' {
        Some(TokenKind::Semicolon)
    } else {
        None
    }
}

fn comparison(c: char, with_equal: bool) -> (r: TokenKind)
    requires
        is_comparison_start(c),
    ensures
        r == comparison_kind(c, with_equal),
{
    if c == '=' {
        if with_equal {
            TokenKind::EqualEqual
        } else {
            TokenKind::Equal
        }
    } else if c == '!' {
        if with_equal {
            TokenKind::BangEqual
        } else {
            TokenKind::Bang
        }
    } else if c == '<' {
        if with_equal {
            TokenKind::LessEqual
        } else {
            TokenKind::Less
        }
    } else {
        if with_equal {
            TokenKind::GreaterEqual
        } else {
            TokenKind::Greater
        }
    }
}

fn unescaped(c: char) -> (r: char)
    ensures
        r == unescape(c),
{
    if c == 'n' {
        '\n'
    } else if c == 't' {
        '\t'
    } else {
        c
    }
}

/// The line of position `to`, given that of position `from`.
fn advance_line(chars: &Vec<char>, from: usize, to: usize, line: usize) -> (r: usize)
    requires
        from <= to <= chars@.len(),
        chars@.len() < usize::MAX,
        line == line_at(chars@, from as int),
    ensures
        r == line_at(chars@, to as int),
{
    let mut r: usize = line;
    let mut i: usize = from;
    while i < to
        invariant
            from <= i <= to <= chars@.len(),
            chars@.len() < usize::MAX,
            r == line_at(chars@, i as int),
        decreases to - i,
    {
        proof {
            lemma_newlines_bound(chars@, i as int);
        }
        if chars[i] == '\n' {
            r = r + 1;
        }
        i = i + 1;
    }
    r
}

/// Skips a comment whose text starts at `start`.
fn skip_comment(chars: &Vec<char>, start: usize) -> (end: usize)
    requires
        start <= chars@.len(),
    ensures
        end == comment_end(chars@, start as int),
        start <= end <= chars@.len(),
{
    let mut i: usize = start;
    while i < chars.len()
        invariant
            start <= i <= chars@.len(),
            comment_end(chars@, i as int) == comment_end(chars@, start as int),
        decreases chars@.len() - i,
    {
        if chars[i] == '\n' {
            return i + 1;
        }
        i = i + 1;
    }
    i
}

impl TokenHandler {
    /// The tokens collected, as values over sequences of characters.
    pub open spec fn tokens_view(&self) -> Seq<TokenView> {
        token_views(self.tokens@)
    }

    /// The errors collected, in the order they were found.
    pub open spec fn errors_view(&self) -> Seq<LexError> {
        self.errors@
    }

    /// Whether the handler holds exactly the outcome of a scan of `s`.
    pub open spec fn holds_scan_of(&self, s: Seq<char>) -> bool {
        &&& self.tokens_view() == scan_tokens(s)
        &&& self.errors_view() == scan_errors(s)
        &&& self.has_error == (scan_errors(s).len() > 0)
        &&& self.line_number == line_at(s, s.len() as int)
    }

    /// Reads the body of a string literal from `start`, the position behind
    /// the opening quote. Returns the value, if a quote closes the literal,
    /// and the position at which the scan goes on.
    fn str_handle(chars: &Vec<char>, start: usize) -> (r: (Option<String>, usize))
        requires
            start <= chars@.len(),
        ensures
            ({
                let stop = string_stop(chars@, start as int);
                let closed = stop < chars@.len() && chars@[stop] == '"';
                &&& r.1 == if stop < chars@.len() {
                    stop + 1
                } else {
                    chars@.len() as int
                }
                &&& r.0 is Some == closed
                &&& closed ==> r.0->0@ == string_value(chars@, start as int, stop)
            }),
    {
        let ghost s = chars@;
        let ghost stop = string_stop(s, start as int);
        let n: usize = chars.len();
        let mut text = String::new();
        let mut i: usize = start;
        proof {
            lemma_string_stop_bounds(s, start as int);
        }
        while i < n
            invariant
                s == chars@,
                n == s.len(),
                start <= i <= n,
                stop == string_stop(s, start as int),
                string_stop(s, i as int) == stop,
                i <= stop,
                text@ + string_value(s, i as int, stop) == string_value(s, start as int, stop),
            decreases n - i,
        {
            let c: char = chars[i];
            if c == '"' {
                assert(text@ + Seq::<char>::empty() =~= text@);
                return (Some(text), i + 1);
            } else if c == '\n' {
                return (None, i + 1);
            } else if c == '\\' {
                if i + 1 < n {
                    proof {
                        lemma_string_stop_bounds(s, i + 2);
                    }
                    let ghost before = text@;
                    text.push(unescaped(chars[i + 1]));
                    assert(text@ + string_value(s, i + 2, stop) =~= before + string_value(
                        s,
                        i as int,
                        stop,
                    ));
                    i = i + 2;
                } else {
                    return (None, n);
                }
            } else {
                proof {
                    lemma_string_stop_bounds(s, i + 1);
                }
                let ghost before = text@;
                text.push(c);
                assert(text@ + string_value(s, i + 1, stop) =~= before + string_value(
                    s,
                    i as int,
                    stop,
                ));
                i = i + 1;
            }
        }
        (None, n)
    }

    /// Finds the end of the number that starts at `pos`.
    fn num_handle(chars: &Vec<char>, pos: usize) -> (end: usize)
        requires
            pos < chars@.len(),
        ensures
            end == number_end(chars@, pos + 1),
            pos < end <= chars@.len(),
    {
        let n: usize = chars.len();
        let mut i: usize = pos + 1;
        while i < n && (char_is_digit(chars[i]) || chars[i] == '.')
            invariant
                n == chars@.len(),
                pos < i <= chars@.len(),
                number_end(chars@, i as int) == number_end(chars@, pos + 1),
            decreases chars@.len() - i,
        {
            i = i + 1;
        }
        i
    }

    /// Finds the end of the identifier or keyword that starts at `pos`.
    fn identifier_handle(chars: &Vec<char>, pos: usize) -> (end: usize)
        requires
            pos < chars@.len(),
        ensures
            end == identifier_end(chars@, pos + 1),
            pos < end <= chars@.len(),
    {
        let n: usize = chars.len();
        let mut i: usize = pos + 1;
        while i < n && char_is_identifier_part(chars[i])
            invariant
                n == chars@.len(),
                pos < i <= chars@.len(),
                identifier_end(chars@, i as int) == identifier_end(chars@, pos + 1),
            decreases chars@.len() - i,
        {
            i = i + 1;
        }
        i
    }

    /// Whether `identifier` is a reserved word.
    fn is_keyword(identifier: &str) -> (r: bool)
        ensures
            r == is_keyword_text(identifier@),
    {
        same_text(identifier, "and") || same_text(identifier, "class") || same_text(
            identifier,
            "else",
        ) || same_text(identifier, "false") || same_text(identifier, "for") || same_text(
            identifier,
            "fun",
        ) || same_text(identifier, "if") || same_text(identifier, "nil") || same_text(
            identifier,
            "or",
        ) || same_text(identifier, "print") || same_text(identifier, "return") || same_text(
            identifier,
            "super",
        ) || same_text(identifier, "this") || same_text(identifier, "true") || same_text(
            identifier,
            "var",
        ) || same_text(identifier, "while")
    }

    fn add_token(&mut self, token: Token)
        ensures
            final(self).tokens@ == old(self).tokens@.push(token),
            token_views(final(self).tokens@) == token_views(old(self).tokens@).push(token@),
            final(self).errors == old(self).errors,
            final(self).line_number == old(self).line_number,
            final(self).has_error == old(self).has_error,
    {
        self.tokens.push(token);
        assert(token_views(self.tokens@) =~= token_views(old(self).tokens@).push(token@));
    }

    fn add_error(&mut self, error: LexError)
        ensures
            final(self).errors@ == old(self).errors@.push(error),
            final(self).tokens == old(self).tokens,
            final(self).line_number == old(self).line_number,
            final(self).has_error,
    {
        self.errors.push(error);
        self.has_error = true;
    }

    /// Scans the one item that starts at `pos` and returns where it ends.
    fn scan_item(&mut self, chars: &Vec<char>, pos: usize) -> (end: usize)
        requires
            pos < chars@.len(),
            chars@.len() < usize::MAX,
            old(self).line_number == line_at(chars@, pos as int),
        ensures
            end == item_end(chars@, pos as int),
            pos < end <= chars@.len(),
            token_views(final(self).tokens@) == token_views(old(self).tokens@) + item_tokens(
                chars@,
                pos as int,
            ),
            final(self).errors@ == old(self).errors@ + item_errors(chars@, pos as int),
            final(self).has_error == (old(self).has_error || error_at(chars@, pos as int) is Some),
            final(self).line_number == line_at(chars@, end as int),
    {
        let ghost s = chars@;
        let n: usize = chars.len();
        let c: char = chars[pos];
        let line: usize = self.line_number;
        let mut kind: Option<TokenKind> = punctuation(c);
        let mut literal: Literal = Literal::Null;
        let mut end: usize = pos + 1;
        proof {
            lemma_item_end_bounds(s, pos as int);
        }
        if kind.is_some() {
            // a token of one character, whatever follows
        } else if c == '=' || c == '!' || c == '<' || c == '>' {
            let with_equal: bool = pos + 1 < n && chars[pos + 1] == '=';
            kind = Some(comparison(c, with_equal));
            if with_equal {
                end = pos + 2;
            }
        } else if c == '/' {
            if pos + 1 < n && chars[pos + 1] == '/' {
                end = skip_comment(chars, pos + 2);
            } else {
                kind = Some(TokenKind::Slash);
            }
        } else if char_is_digit(c) {
            end = Self::num_handle(chars, pos);
            let digits: Vec<char> = sub_chars(chars, pos, end);
            let value: String = if is_number(&digits) {
                to_text(chars, pos, end)
            } else {
                String::from_str("0")
            };
            kind = Some(TokenKind::Number);
            literal = Literal::Number(value);
        } else if char_is_identifier_start(c) {
            end = Self::identifier_handle(chars, pos);
            let name: String = to_text(chars, pos, end);
            if Self::is_keyword(name.as_str()) {
                kind = Some(TokenKind::Keyword);
            } else {
                kind = Some(TokenKind::Identifier);
            }
        } else if c == '"' {
            let (value, after) = Self::str_handle(chars, pos + 1);
            end = after;
            match value {
                Some(text) => {
                    kind = Some(TokenKind::String);
                    literal = Literal::Text(text);
                },
                None => {
                    self.add_error(LexError::UnterminatedString { line });
                },
            }
        } else if c == ' ' || c == '\r' || c == '\t' || c == '\n' {
            // blank space and line breaks yield nothing
        } else {
            self.add_error(LexError::UnexpectedCharacter { ch: c, line });
        }
        assert(self.errors@ =~= old(self).errors@ + item_errors(s, pos as int));
        match kind {
            Some(kind) => {
                let token = Token { kind, lexeme: to_text(chars, pos, end), literal, line };
                self.add_token(token);
                assert(token_views(self.tokens@) =~= token_views(old(self).tokens@) + item_tokens(
                    s,
                    pos as int,
                ));
            },
            None => {
                assert(token_views(self.tokens@) =~= token_views(old(self).tokens@) + item_tokens(
                    s,
                    pos as int,
                ));
            },
        }
        self.line_number = advance_line(chars, pos, end, line);
        end
    }

    /// Scans `file_contents` from its start to its end and keeps the outcome:
    /// the tokens, closed by the end token, the errors, and the line reached.
    /// Whatever an earlier scan left in the handler is dropped.
    pub fn scan_token(&mut self, file_contents: &str)
        ensures
            final(self).holds_scan_of(file_contents@),
            ends_with_one_eof(final(self).tokens_view()),
            lines_ordered(final(self).tokens_view()),
            lines_within(final(self).tokens_view(), final(self).line_number as nat),
    {
        let chars: Vec<char> = to_chars(file_contents);
        let ghost s = chars@;
        let n: usize = chars.len();
        self.line_number = 1;
        self.has_error = false;
        self.tokens = Vec::new();
        self.errors = Vec::new();
        let mut pos: usize = 0;
        assert(token_views(self.tokens@) + tokens_from(s, 0) =~= tokens_from(s, 0));
        assert(self.errors@ + errors_from(s, 0) =~= errors_from(s, 0));
        while pos < n
            invariant
                s == chars@,
                n == s.len(),
                n < usize::MAX,
                pos <= n,
                self.line_number == line_at(s, pos as int),
                token_views(self.tokens@) + tokens_from(s, pos as int) == tokens_from(s, 0),
                self.errors@ + errors_from(s, pos as int) == errors_from(s, 0),
                self.has_error == (self.errors@.len() > 0),
            decreases n - pos,
        {
            let ghost tokens_before = token_views(self.tokens@);
            let ghost errors_before = self.errors@;
            let end: usize = self.scan_item(&chars, pos);
            assert(token_views(self.tokens@) + tokens_from(s, end as int) =~= tokens_before
                + tokens_from(s, pos as int));
            assert(self.errors@ + errors_from(s, end as int) =~= errors_before + errors_from(
                s,
                pos as int,
            ));
            pos = end;
        }
        let ghost tokens_before = token_views(self.tokens@);
        let token = Token {
            kind: TokenKind::Eof,
            lexeme: String::new(),
            literal: Literal::Null,
            line: self.line_number,
        };
        self.add_token(token);
        assert(token_views(self.tokens@) =~= tokens_before + tokens_from(s, n as int));
        assert(self.errors@ + errors_from(s, n as int) =~= self.errors@);
        proof {
            lemma_scan_shape(s);
        }
    }

    /// The status a run ends with: 0 after a scan without errors, 65 after
    /// one that met an error.
    pub fn exit_status(&self) -> (code: i32)
        ensures
            code == if self.has_error {
                65i32
            } else {
                0i32
            },
    {
        if self.has_error {
            65
        } else {
            0
        }
    }

    /// The tokens of the last scan, the end token last.
    pub fn get_tokens(&self) -> (r: &Vec<Token>)
        ensures
            *r == self.tokens,
            token_views(r@) == self.tokens_view(),
    {
        &self.tokens
    }

    /// The errors of the last scan, in the order they were found.
    pub fn get_errors(&self) -> (r: &Vec<LexError>)
        ensures
            *r == self.errors,
            r@ == self.errors_view(),
    {
        &self.errors
    }
}

} // verus!

//! A parser for flat expressions: primaries joined by arithmetic operators,
//! read from a list of lexemes.

use vstd::prelude::*;
use crate::chars::same_text;
use crate::number::{denotes_number, is_number_text};

verus! {

/// An expression: a literal, or two expressions joined by an operator.
#[derive(Debug, PartialEq, Eq)]
pub enum Expr {
    /// `true`, `false`, `nil` or a number, as written.
    Literal(String),
    /// The left operand, the operator and the right operand.
    Binary(Box<Expr>, String, Box<Expr>),
}

/// What an `Expr` is, over sequences of characters.
pub enum ExprView {
    Literal(Seq<char>),
    Binary(Box<ExprView>, Seq<char>, Box<ExprView>),
}

impl View for Expr {
    type V = ExprView;

    open spec fn view(&self) -> ExprView
        decreases self,
    {
        match self {
            Expr::Literal(value) => ExprView::Literal(value@),
            Expr::Binary(left, op, right) => ExprView::Binary(
                Box::new((**left).view()),
                op@,
                Box::new((**right).view()),
            ),
        }
    }
}

/// The text of an expression: a literal as it is, a binary expression as
/// `(left op right)`.
pub open spec fn rendered(e: ExprView) -> Seq<char>
    decreases e,
{
    match e {
        ExprView::Literal(value) => value,
        ExprView::Binary(left, op, right) => seq!['('] + rendered(*left) + seq![' '] + op
            + seq![' '] + rendered(*right) + seq![')'],
    }
}

impl Expr {
    /// Writes the expression out, every binary expression in parentheses.
    pub fn evaluate(&self) -> (r: String)
        ensures
            r@ == rendered(self@),
        decreases self,
    {
        match self {
            Expr::Literal(value) => value.clone(),
            Expr::Binary(left, op, right) => {
                let mut out = String::new();
                out.push('(');
                out.append(left.evaluate().as_str());
                out.push(' ');
                out.append(op.as_str());
                out.push(' ');
                out.append(right.evaluate().as_str());
                out.push(')');
                assert(out@ =~= rendered(self@));
                out
            },
        }
    }
}

/// The texts of a sequence of strings, in order.
pub open spec fn texts(v: Seq<String>) -> Seq<Seq<char>> {
    Seq::new(v.len(), |i: int| v[i]@)
}

/// Whether `t` is one of the four arithmetic operators.
pub open spec fn is_operator_text(t: Seq<char>) -> bool {
    t == "+"@ || t == "-"@ || t == "*"@ || t == "/"@
}

/// Whether `t` is a primary: `true`, `false`, `nil` or a number.
pub open spec fn is_primary_text(t: Seq<char>) -> bool {
    t == "true"@ || t == "false"@ || t == "nil"@ || is_number_text(t)
}

/// What a `Result` of the parser is, over sequences of characters.
pub open spec fn result_view(r: Result<Expr, String>) -> Result<ExprView, Seq<char>> {
    match r {
        Ok(e) => Ok(e@),
        Err(m) => Err(m@),
    }
}

/// `t` without its last element, or `t` where it is empty.
pub open spec fn without_last(t: Seq<Seq<char>>) -> Seq<Seq<char>> {
    if t.len() > 0 {
        t.drop_last()
    } else {
        t
    }
}

/// The primary that the last lexeme of `t` is, or the error it is refused
/// with.
pub open spec fn primary_of(t: Seq<Seq<char>>) -> Result<ExprView, Seq<char>> {
    if t.len() == 0 {
        Err("No tokens to parse"@)
    } else if is_primary_text(t.last()) {
        Ok(ExprView::Literal(t.last()))
    } else {
        Err("Unexpected token: "@ + t.last())
    }
}

/// The outcome of parsing the lexemes `t`, and the lexemes left over. The
/// lexemes are read from the last to the first. The last one is a primary;
/// where an operator stands before it, that operator joins the expression
/// that the lexemes before it parse into, on the left, with the primary, on
/// the right. So a chain of operators nests to the left, the first lexeme
/// leftmost. Reading ends before a lexeme that is no operator, and with the
/// first error.
pub open spec fn parse_outcome(t: Seq<Seq<char>>) -> (Result<ExprView, Seq<char>>, Seq<Seq<char>>)
    decreases t.len(),
{
    match primary_of(t) {
        Err(e) => (Err(e), without_last(t)),
        Ok(last) => {
            let before = t.drop_last();
            if before.len() > 0 && is_operator_text(before.last()) {
                match parse_outcome(before.drop_last()) {
                    (Ok(left), rest) => (
                        Ok(ExprView::Binary(Box::new(left), before.last(), Box::new(last))),
                        rest,
                    ),
                    (Err(e), rest) => (Err(e), rest),
                }
            } else {
                (Ok(last), before)
            }
        },
    }
}

/// The text of the expression that the lexemes `t` parse into, or the
/// error they are refused with.
pub open spec fn evaluation_of(t: Seq<Seq<char>>) -> Result<Seq<char>, Seq<char>> {
    match parse_outcome(t).0 {
        Ok(e) => Ok(rendered(e)),
        Err(m) => Err(m),
    }
}

/// Parses `tokens` and writes the expression out.
pub fn evaluate_tokens(tokens: &Vec<String>) -> (r: Result<String, String>)
    ensures
        match r {
            Ok(text) => evaluation_of(texts(tokens@)) == Ok::<Seq<char>, Seq<char>>(text@),
            Err(m) => evaluation_of(texts(tokens@)) == Err::<Seq<char>, Seq<char>>(m@),
        },
{
    let mut parser = ParserHandler::new(tokens);
    match parser.parse() {
        Ok(expr) => Ok(expr.evaluate()),
        Err(m) => Err(m),
    }
}

/// A parser over a list of lexemes.
pub struct ParserHandler {
    pub tokens: Vec<String>,
}

impl ParserHandler {
    /// A parser that holds a copy of `tokens`.
    pub fn new(tokens: &Vec<String>) -> (r: ParserHandler)
        ensures
            texts(r.tokens@) == texts(tokens@),
    {
        let mut copy: Vec<String> = Vec::new();
        let mut i: usize = 0;
        while i < tokens.len()
            invariant
                i <= tokens@.len(),
                copy@.len() == i,
                forall|k: int| 0 <= k < i ==> copy@[k]@ == tokens@[k]@,
            decreases tokens@.len() - i,
        {
            copy.push(tokens[i].clone());
            i = i + 1;
        }
        assert(texts(copy@) =~= texts(tokens@));
        ParserHandler { tokens: copy }
    }

    /// Parses the lexemes into an expression, or says why they are none.
    /// The lexemes that were read leave the parser.
    pub fn parse(&mut self) -> (r: Result<Expr, String>)
        ensures
            result_view(r) == parse_outcome(texts(old(self).tokens@)).0,
            texts(final(self).tokens@) == parse_outcome(texts(old(self).tokens@)).1,
    {
        if self.tokens.len() == 0 {
            return Err(String::from_str("No tokens to parse"));
        }
        self.parse_expression()
    }

    /// Reads a primary from the end and, where an operator stands before
    /// it, the expression before that operator as its left operand.
    fn parse_expression(&mut self) -> (r: Result<Expr, String>)
        ensures
            result_view(r) == parse_outcome(texts(old(self).tokens@)).0,
            texts(final(self).tokens@) == parse_outcome(texts(old(self).tokens@)).1,
        decreases old(self).tokens@.len(),
    {
        let last: Expr = match self.parse_primary() {
            Ok(e) => e,
            Err(m) => {
                return Err(m);
            },
        };
        match self.match_operator() {
            None => Ok(last),
            Some(op) => {
                assert(texts(self.tokens@).len() == self.tokens@.len());
                assert(texts(old(self).tokens@).len() == old(self).tokens@.len());
                match self.parse_expression() {
                    Ok(left) => Ok(Expr::Binary(Box::new(left), op, Box::new(last))),
                    Err(m) => Err(m),
                }
            },
        }
    }

    /// Takes the last lexeme off if it is an operator.
    fn match_operator(&mut self) -> (r: Option<String>)
        ensures
            ({
                let t = texts(old(self).tokens@);
                let found = t.len() > 0 && is_operator_text(t.last());
                &&& r is Some == found
                &&& found ==> r->0@ == t.last() && texts(final(self).tokens@) == t.drop_last()
                &&& !found ==> texts(final(self).tokens@) == t
            }),
    {
        let n: usize = self.tokens.len();
        if n > 0 {
            let last: &str = self.tokens[n - 1].as_str();
            if same_text(last, "+") || same_text(last, "-") || same_text(last, "*") || same_text(
                last,
                "/",
            ) {
                let r = self.tokens.pop();
                assert(texts(self.tokens@) =~= texts(old(self).tokens@).drop_last());
                return r;
            }
        }
        None
    }

    /// Takes the last lexeme off and reads it as a primary.
    fn parse_primary(&mut self) -> (r: Result<Expr, String>)
        ensures
            result_view(r) == primary_of(texts(old(self).tokens@)),
            texts(final(self).tokens@) == without_last(texts(old(self).tokens@)),
    {
        match self.tokens.pop() {
            Some(token) => {
                assert(texts(self.tokens@) =~= texts(old(self).tokens@).drop_last());
                let is_primary: bool = same_text(token.as_str(), "true") || same_text(
                    token.as_str(),
                    "false",
                ) || same_text(token.as_str(), "nil") || denotes_number(token.as_str());
                if is_primary {
                    Ok(Expr::Literal(token))
                } else {
                    let mut message = String::from_str("Unexpected token: ");
                    message.append(token.as_str());
                    Err(message)
                }
            },
            None => Err(String::from_str("No tokens to parse")),
        }
    }
}

} // verus!

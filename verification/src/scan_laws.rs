//! What holds of every scan, proved from the definition of its outcome.

use vstd::prelude::*;
use crate::grammar::{
    end_token,
    item_end,
    item_tokens,
    lemma_item_end_bounds,
    lemma_line_monotone,
    line_at,
    scan_tokens,
    tokens_from,
};
use crate::token::{output_text, TokenKind, TokenView};
use crate::token_handler::TokenHandler;

verus! {

/// Whether the lines of `tokens` never go down from one token to the next.
pub open spec fn lines_ordered(tokens: Seq<TokenView>) -> bool {
    forall|i: int, j: int| 0 <= i <= j < tokens.len() ==> tokens[i].line <= tokens[j].line
}

/// Whether every token of `tokens` lies on a line from 1 to `last`.
pub open spec fn lines_within(tokens: Seq<TokenView>, last: nat) -> bool {
    forall|i: int| 0 <= i < tokens.len() ==> 1 <= #[trigger] tokens[i].line <= last
}

/// Whether `tokens` ends with an end token and holds no other.
pub open spec fn ends_with_one_eof(tokens: Seq<TokenView>) -> bool {
    &&& tokens.len() >= 1
    &&& tokens.last().kind == TokenKind::Eof
    &&& forall|i: int| 0 <= i < tokens.len() - 1 ==> tokens[i].kind != TokenKind::Eof
}

/// The tokens from any position on end with the one end token, lie on no
/// line before that of the position nor behind the last line of the text,
/// and are ordered by line.
pub proof fn lemma_tokens_from_shape(s: Seq<char>, pos: int)
    requires
        0 <= pos <= s.len(),
    ensures
        ends_with_one_eof(tokens_from(s, pos)),
        tokens_from(s, pos).last() == end_token(s),
        lines_ordered(tokens_from(s, pos)),
        lines_within(tokens_from(s, pos), line_at(s, s.len() as int)),
        forall|i: int|
            0 <= i < tokens_from(s, pos).len() ==> line_at(s, pos) <= tokens_from(s, pos)[i].line,
    decreases s.len() - pos,
{
    let all = tokens_from(s, pos);
    if pos >= s.len() {
        assert(all =~= seq![end_token(s)]);
    } else {
        let next = item_end(s, pos);
        lemma_item_end_bounds(s, pos);
        lemma_tokens_from_shape(s, next);
        lemma_line_monotone(s, pos, next);
        lemma_line_monotone(s, pos, s.len() as int);
        let head = item_tokens(s, pos);
        let rest = tokens_from(s, next);
        assert(all =~= head + rest);
        assert forall|i: int| 0 <= i < all.len() implies line_at(s, pos) <= all[i].line
            && all[i].line <= line_at(s, s.len() as int) && (i < all.len() - 1 ==> all[i].kind
            != TokenKind::Eof) by {
            if i >= head.len() {
                assert(all[i] == rest[i - head.len()]);
            }
        }
        assert forall|i: int, j: int| 0 <= i <= j < all.len() implies all[i].line
            <= all[j].line by {
            if i >= head.len() {
                assert(all[i] == rest[i - head.len()]);
                assert(all[j] == rest[j - head.len()]);
            } else if j >= head.len() {
                assert(all[j] == rest[j - head.len()]);
            }
        }
        assert(all.last() == rest.last());
    }
}

/// The tokens of every scan end with exactly one end token, their line
/// numbers never go down, and each lies between 1 and 1 plus the number of
/// line breaks in the text.
pub proof fn lemma_scan_shape(s: Seq<char>)
    ensures
        ends_with_one_eof(scan_tokens(s)),
        scan_tokens(s).last() == end_token(s),
        lines_ordered(scan_tokens(s)),
        lines_within(scan_tokens(s), line_at(s, s.len() as int)),
{
    lemma_tokens_from_shape(s, 0);
}

/// The end token is written out as `EOF`, two spaces and `null`.
pub proof fn lemma_end_token_output(s: Seq<char>, number: Seq<char>)
    ensures
        output_text(end_token(s), number) == "EOF  null"@,
{
    reveal_strlit("EOF");
    reveal_strlit("null");
    reveal_strlit("EOF  null");
    assert(output_text(end_token(s), number) =~= "EOF  null"@);
}

/// Two handlers that each hold the scan of the same text hold the same
/// tokens, the same errors, the same error flag and the same line.
pub proof fn lemma_scan_repeatable(a: TokenHandler, b: TokenHandler, s: Seq<char>)
    requires
        a.holds_scan_of(s),
        b.holds_scan_of(s),
    ensures
        a.tokens_view() == b.tokens_view(),
        a.errors_view() == b.errors_view(),
        a.has_error == b.has_error,
        a.line_number == b.line_number,
{
}

} // verus!

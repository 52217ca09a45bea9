//! The scan as a machine with two states, which reads the text one item at
//! a time and never looks ahead. On the first character of an operator that
//! may go on (`=`, `!`, `<`, `>`, `/`) it yields nothing and holds that
//! character back; what follows decides what the held character was. The
//! machine yields the tokens and errors that the grammar defines.

use vstd::prelude::*;
use crate::chars::is_comparison_start;
use crate::grammar::{
    comment_end,
    comparison_kind,
    end_token,
    errors_from,
    item_end,
    item_errors,
    item_tokens,
    lemma_comment_end_bounds,
    lemma_item_end_bounds,
    line_at,
    scan_errors,
    scan_tokens,
    tokens_from,
};
use crate::token::{LexError, LiteralView, TokenKind, TokenView};

verus! {

/// Whether the machine holds `c` back when it meets it.
pub open spec fn is_held_back(c: char) -> bool {
    is_comparison_start(c) || c == '/'
}

/// The token that the character at `p` is when it stands alone.
pub open spec fn short_token(s: Seq<char>, p: int) -> TokenView {
    TokenView {
        kind: if s[p] == '/' {
            TokenKind::Slash
        } else {
            comparison_kind(s[p], false)
        },
        lexeme: seq![s[p]],
        literal: LiteralView::Null,
        line: line_at(s, p),
    }
}

/// The token that the character at `p` and the `=` behind it are.
pub open spec fn long_token(s: Seq<char>, p: int) -> TokenView {
    TokenView {
        kind: comparison_kind(s[p], true),
        lexeme: seq![s[p], '='],
        literal: LiteralView::Null,
        line: line_at(s, p),
    }
}

/// What the held character yields once it is known to stand alone.
pub open spec fn released(s: Seq<char>, pos: int, held: bool) -> Seq<TokenView> {
    if held {
        seq![short_token(s, pos - 1)]
    } else {
        Seq::empty()
    }
}

/// The tokens that the machine yields from position `pos` on. With `held`
/// the character before `pos` is held back.
pub open spec fn machine_tokens(s: Seq<char>, pos: int, held: bool) -> Seq<TokenView>
    decreases s.len() - pos,
    via machine_tokens_decreases
{
    if pos < 0 || pos >= s.len() {
        released(s, pos, held) + seq![end_token(s)]
    } else if held && is_comparison_start(s[pos - 1]) && s[pos] == '=' {
        seq![long_token(s, pos - 1)] + machine_tokens(s, pos + 1, false)
    } else if held && s[pos - 1] == '/' && s[pos] == '/' {
        machine_tokens(s, comment_end(s, pos + 1), false)
    } else if is_held_back(s[pos]) {
        released(s, pos, held) + machine_tokens(s, pos + 1, true)
    } else {
        released(s, pos, held) + item_tokens(s, pos) + machine_tokens(s, item_end(s, pos), false)
    }
}

#[via_fn]
proof fn machine_tokens_decreases(s: Seq<char>, pos: int, held: bool) {
    if 0 <= pos < s.len() {
        lemma_item_end_bounds(s, pos);
        lemma_comment_end_bounds(s, pos + 1);
    }
}

/// The errors that the machine reports from position `pos` on. A held
/// character is never in error.
pub open spec fn machine_errors(s: Seq<char>, pos: int, held: bool) -> Seq<LexError>
    decreases s.len() - pos,
    via machine_errors_decreases
{
    if pos < 0 || pos >= s.len() {
        Seq::empty()
    } else if held && is_comparison_start(s[pos - 1]) && s[pos] == '=' {
        machine_errors(s, pos + 1, false)
    } else if held && s[pos - 1] == '/' && s[pos] == '/' {
        machine_errors(s, comment_end(s, pos + 1), false)
    } else if is_held_back(s[pos]) {
        machine_errors(s, pos + 1, true)
    } else {
        item_errors(s, pos) + machine_errors(s, item_end(s, pos), false)
    }
}

#[via_fn]
proof fn machine_errors_decreases(s: Seq<char>, pos: int, held: bool) {
    if 0 <= pos < s.len() {
        lemma_item_end_bounds(s, pos);
        lemma_comment_end_bounds(s, pos + 1);
    }
}

/// From any position the machine yields what the grammar defines: with
/// nothing held, the tokens and errors from that position on; with a
/// character held, those from the held character on.
pub proof fn lemma_machine_follows_grammar(s: Seq<char>, pos: int, held: bool)
    requires
        0 <= pos <= s.len(),
        held ==> pos >= 1 && is_held_back(s[pos - 1]),
    ensures
        machine_tokens(s, pos, held) == tokens_from(
            s,
            if held {
                pos - 1
            } else {
                pos
            },
        ),
        machine_errors(s, pos, held) == errors_from(
            s,
            if held {
                pos - 1
            } else {
                pos
            },
        ),
    decreases s.len() - pos, if held { 1nat } else { 0nat },
{
    let p = pos - 1;
    if held {
        lemma_item_end_bounds(s, p);
        assert(s.subrange(p, p + 1) =~= seq![s[p]]);
        assert(item_errors(s, p) =~= Seq::<LexError>::empty());
        assert(Seq::<LexError>::empty() + errors_from(s, item_end(s, p)) =~= errors_from(
            s,
            item_end(s, p),
        ));
    }
    if pos >= s.len() {
        if held {
            assert(item_tokens(s, p) =~= seq![short_token(s, p)]);
            assert(tokens_from(s, pos) =~= seq![end_token(s)]);
        } else {
            assert(machine_tokens(s, pos, held) =~= seq![end_token(s)]);
        }
    } else if held && is_comparison_start(s[p]) && s[pos] == '=' {
        lemma_machine_follows_grammar(s, pos + 1, false);
        assert(s.subrange(p, p + 2) =~= seq![s[p], '=']);
        assert(item_tokens(s, p) =~= seq![long_token(s, p)]);
    } else if held && s[p] == '/' && s[pos] == '/' {
        lemma_comment_end_bounds(s, pos + 1);
        lemma_machine_follows_grammar(s, comment_end(s, pos + 1), false);
        assert(item_tokens(s, p) =~= Seq::<TokenView>::empty());
        assert(Seq::<TokenView>::empty() + tokens_from(s, item_end(s, p)) =~= tokens_from(
            s,
            item_end(s, p),
        ));
    } else if held {
        lemma_machine_follows_grammar(s, pos, false);
        assert(item_tokens(s, p) =~= seq![short_token(s, p)]);
        assert(machine_tokens(s, pos, true) =~= released(s, pos, true) + machine_tokens(
            s,
            pos,
            false,
        ));
    } else if is_held_back(s[pos]) {
        lemma_machine_follows_grammar(s, pos + 1, true);
        assert(machine_tokens(s, pos, false) =~= machine_tokens(s, pos + 1, true));
    } else {
        lemma_item_end_bounds(s, pos);
        lemma_machine_follows_grammar(s, item_end(s, pos), false);
        assert(machine_tokens(s, pos, false) =~= item_tokens(s, pos) + machine_tokens(
            s,
            item_end(s, pos),
            false,
        ));
    }
}

/// Run from the start with nothing held, the machine yields exactly the
/// tokens and the errors of the scan.
pub proof fn lemma_machine_scans(s: Seq<char>)
    ensures
        machine_tokens(s, 0, false) == scan_tokens(s),
        machine_errors(s, 0, false) == scan_errors(s),
{
    lemma_machine_follows_grammar(s, 0, false);
}

} // verus!

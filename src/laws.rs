//! General properties of the token model.
use crate::grammar::{
    is_alpha, is_blank, is_digit, lemma_block_close_bounds, lemma_number_end_bounds,
    lemma_run_end_bounds, lemma_step_advances, lex, lex_from, punctuation, starts_rule, step, tok, total_len, RunClass,
};
use crate::token::{KindView, TokenView};
use vstd::prelude::*;

verus! {

/// Whether a token's length leaves out some of the characters it consumed:
/// a block comment's delimiters and a string literal's quotes are not counted.
pub open spec fn drops_delimiters(t: TokenView) -> bool {
    t.kind is BlockComment || (t.kind is Literal && t.kind->Literal_kind is String)
}

/// A token's length is at most what its step consumed, and exactly that
/// unless it drops delimiters.
pub proof fn lemma_step_len(s: Seq<char>, i: nat)
    requires
        i < s.len(),
    ensures
        step(s, i).0.len <= step(s, i).1 - i,
        !drops_delimiters(step(s, i).0) ==> step(s, i).0.len == step(s, i).1 - i,
{
    lemma_step_advances(s, i);
    let c = s[i as int];
    if c == '/' && i + 1 < s.len() && s[(i + 1) as int] == '/' {
        lemma_run_end_bounds(s, i + 2, RunClass::CommentText);
    } else if c == '/' && i + 1 < s.len() && s[(i + 1) as int] == '*' {
        lemma_block_close_bounds(s, i + 2);
    } else if is_blank(c) {
        lemma_run_end_bounds(s, i + 1, RunClass::Blank);
    } else if c == '"' {
        lemma_run_end_bounds(s, i + 1, RunClass::StringText);
    } else if is_digit(c) {
        lemma_number_end_bounds(s, i + 1, false);
    } else if is_alpha(c) {
        lemma_run_end_bounds(s, i + 1, RunClass::Letter);
    }
}

/// From position `i` on, there are no more tokens than characters left.
pub proof fn lemma_lex_from_count(s: Seq<char>, i: nat)
    requires
        i <= s.len(),
    ensures
        lex_from(s, i).len() <= s.len() - i,
    decreases s.len() - i,
{
    if i < s.len() {
        lemma_step_advances(s, i);
        lemma_lex_from_count(s, step(s, i).1);
    }
}

/// From position `i` on, the token lengths add up to no more than the
/// characters left.
pub proof fn lemma_lex_from_total(s: Seq<char>, i: nat)
    requires
        i <= s.len(),
    ensures
        total_len(lex_from(s, i)) <= s.len() - i,
    decreases s.len() - i,
{
    if i < s.len() {
        lemma_step_advances(s, i);
        let (t, e) = step(s, i);
        lemma_lex_from_total(s, e);
        let ts = lex_from(s, i);
        assert(ts.drop_first() == lex_from(s, e));
        lemma_step_len(s, i);
    }
}

/// The token sequence is finite: there are never more tokens than
/// characters in the source.
pub proof fn lemma_lex_bounded(s: Seq<char>)
    ensures
        lex(s).len() <= s.len(),
        total_len(lex(s)) <= s.len(),
{
    lemma_lex_from_count(s, 0);
    lemma_lex_from_total(s, 0);
}

/// Tokenizing is a function of the text alone: equal sources give equal
/// token sequences.
pub proof fn lemma_lex_deterministic(a: Seq<char>, b: Seq<char>)
    requires
        a == b,
    ensures
        lex(a) == lex(b),
{
}

/// A punctuation character on its own is one token of its kind, of length 1.
pub proof fn lemma_punctuation_alone(c: char)
    requires
        punctuation(c) is Some,
    ensures
        lex(seq![c]) == seq![tok(punctuation(c)->0, 1)],
{
    let s = seq![c];
    assert(lex_from(s, 1) == Seq::<TokenView>::empty());
}

/// A character that no rule recognises, or a lone `/`, is on its own one
/// `InvalidIdentifier` of length 1.
pub proof fn lemma_unrecognised_alone(c: char)
    requires
        !starts_rule(c) || c == '/',
    ensures
        lex(seq![c]) == seq![tok(KindView::InvalidIdentifier, 1)],
{
    let s = seq![c];
    assert(lex_from(s, 1) == Seq::<TokenView>::empty());
}

/// From position `i` on, where no token drops delimiters, the token lengths
/// add up to exactly the characters left.
pub proof fn lemma_lex_from_covers(s: Seq<char>, i: nat)
    requires
        i <= s.len(),
        forall|k: int| 0 <= k < lex_from(s, i).len() ==> !drops_delimiters(#[trigger] lex_from(s, i)[k]),
    ensures
        total_len(lex_from(s, i)) == s.len() - i,
    decreases s.len() - i,
{
    if i < s.len() {
        lemma_step_advances(s, i);
        lemma_step_len(s, i);
        let (t, e) = step(s, i);
        let ts = lex_from(s, i);
        assert(ts[0] == t);
        assert(ts.drop_first() == lex_from(s, e));
        assert forall|k: int| 0 <= k < lex_from(s, e).len() implies !drops_delimiters(
            #[trigger] lex_from(s, e)[k],
        ) by {
            assert(lex_from(s, e)[k] == ts[k + 1]);
        }
        lemma_lex_from_covers(s, e);
    }
}

/// Where no token is a block comment or a string literal, the token lengths
/// add up to the number of characters of the source: every character is
/// counted by exactly one token. (Those two kinds leave their delimiters out
/// of their length.)
pub proof fn lemma_lengths_cover_source(s: Seq<char>)
    requires
        forall|k: int| 0 <= k < lex(s).len() ==> !drops_delimiters(#[trigger] lex(s)[k]),
    ensures
        total_len(lex(s)) == s.len(),
{
    assert forall|k: int| 0 <= k < lex_from(s, 0).len() implies !drops_delimiters(
        #[trigger] lex_from(s, 0)[k],
    ) by {
        assert(lex(s)[k] == lex_from(s, 0)[k]);
    }
    lemma_lex_from_covers(s, 0);
}

} // verus!

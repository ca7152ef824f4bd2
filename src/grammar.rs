//! The lexical grammar as a mathematical function from characters to tokens.
//!
//! `lex(s)` is the token sequence of the source `s`. It is built by `step`,
//! which reads the token that starts at a position and says where the next
//! one starts. Lengths follow these rules: a token's `len` is the number of
//! characters it consumed, except that a block comment counts its body and
//! one more, and a string literal counts its body only.
use crate::token::{Base, KindView, LiteralKind, TokenView};
use vstd::prelude::*;

verus! {

/// Space, tab and carriage return.
pub open spec fn is_blank(c: char) -> bool {
    c == ' ' || c == '\t' || c == '\r'
}

pub open spec fn is_alpha(c: char) -> bool {
    ('a' <= c && c <= 'z') || ('A' <= c && c <= 'Z')
}

pub open spec fn is_digit(c: char) -> bool {
    '0' <= c && c <= '9'
}

pub open spec fn is_hex_digit(c: char) -> bool {
    is_digit(c) || ('a' <= c && c <= 'f') || ('A' <= c && c <= 'F')
}

/// The kind of the one-character punctuation token `c`, if it is one.
pub open spec fn punctuation(c: char) -> Option<KindView> {
    if c == ';' {
        Some(KindView::Semi)
    } else if c == ',' {
        Some(KindView::Comma)
    } else if c == '.' {
        Some(KindView::Dot)
    } else if c == '(' {
        Some(KindView::OpenParenthesis)
    } else if c == ')' {
        Some(KindView::CloseParenthesis)
    } else if c == '{' {
        Some(KindView::OpenBrace)
    } else if c == '}' {
        Some(KindView::CloseBrace)
    } else if c == '[' {
        Some(KindView::OpenBracket)
    } else if c == ']' {
        Some(KindView::CloseBracket)
    } else {
        None
    }
}

/// Whether some rule of the grammar, other than the fallback, starts at `c`.
pub open spec fn starts_rule(c: char) -> bool {
    c == '/' || is_blank(c) || c == '\n' || punctuation(c) is Some || c == '"' || is_digit(c)
        || is_alpha(c)
}

/// The sets of characters that make up the runs the lexer scans over.
#[derive(Clone, Copy)]
pub enum RunClass {
    /// Spaces, tabs and carriage returns.
    Blank,
    /// ASCII letters.
    Letter,
    /// Anything but a line feed: the text of a line comment.
    CommentText,
    /// Anything but a double quote: the text of a string literal.
    StringText,
}

impl RunClass {
    pub open spec fn contains(self, c: char) -> bool {
        match self {
            RunClass::Blank => is_blank(c),
            RunClass::Letter => is_alpha(c),
            RunClass::CommentText => c != '\n',
            RunClass::StringText => c != '"',
        }
    }
}

/// The end of the longest run of `class` characters of `s` that starts at `j`.
pub open spec fn run_end(s: Seq<char>, j: nat, class: RunClass) -> nat
    decreases s.len() - j,
{
    if j < s.len() && class.contains(s[j as int]) {
        run_end(s, j + 1, class)
    } else {
        j
    }
}

/// The end of the run of an integer literal that continues at `j`: hex digits
/// (decimal digits among them), and one `x` if `seen_x` is false.
pub open spec fn number_end(s: Seq<char>, j: nat, seen_x: bool) -> nat
    decreases s.len() - j,
{
    if j < s.len() && is_hex_digit(s[j as int]) {
        number_end(s, j + 1, seen_x)
    } else if j < s.len() && s[j as int] == 'x' && !seen_x {
        number_end(s, j + 1, true)
    } else {
        j
    }
}

/// The position of the first `*/` of `s` at or after `j`, or `s.len()` if
/// there is none.
pub open spec fn block_close(s: Seq<char>, j: nat) -> nat
    decreases s.len() - j,
{
    if j >= s.len() {
        s.len()
    } else if j + 1 < s.len() && s[j as int] == '*' && s[(j + 1) as int] == '/' {
        j
    } else {
        block_close(s, j + 1)
    }
}

pub open spec fn tok(kind: KindView, len: int) -> TokenView {
    TokenView { kind, len: len as nat }
}

/// The token that starts at position `i` of `s`, and the position after it.
pub open spec fn step(s: Seq<char>, i: nat) -> (TokenView, nat) {
    let c = s[i as int];
    if c == '/' && i + 1 < s.len() && s[(i + 1) as int] == '/' {
        let e = run_end(s, i + 2, RunClass::CommentText);
        (tok(KindView::LineComment, e - i), e)
    } else if c == '/' && i + 1 < s.len() && s[(i + 1) as int] == '*' {
        let k = block_close(s, i + 2);
        let e = if k < s.len() { k + 2 } else { k };
        (tok(KindView::BlockComment, k - (i + 2) + 1), e)
    } else if is_blank(c) {
        let e = run_end(s, i + 1, RunClass::Blank);
        (tok(KindView::Whitespace, e - i), e)
    } else if c == '\n' {
        (tok(KindView::Newline, 1), i + 1)
    } else if punctuation(c) is Some {
        (tok(punctuation(c)->0, 1), i + 1)
    } else if c == '"' {
        let k = run_end(s, i + 1, RunClass::StringText);
        let e = if k < s.len() { k + 1 } else { k };
        let value = s.subrange((i + 1) as int, k as int);
        (tok(KindView::Literal { kind: LiteralKind::String, value }, k - (i + 1)), e)
    } else if is_digit(c) {
        let e = number_end(s, i + 1, false);
        let value = s.subrange(i as int, e as int);
        let base = if value.contains('x') {
            Base::Hexadecimal
        } else {
            Base::Decimal
        };
        (tok(KindView::Literal { kind: LiteralKind::Int { base }, value }, e - i), e)
    } else if is_alpha(c) {
        let e = run_end(s, i + 1, RunClass::Letter);
        (tok(KindView::Identifier, e - i), e)
    } else {
        (tok(KindView::InvalidIdentifier, 1), i + 1)
    }
}

pub proof fn lemma_run_end_bounds(s: Seq<char>, j: nat, class: RunClass)
    requires
        j <= s.len(),
    ensures
        j <= run_end(s, j, class) <= s.len(),
    decreases s.len() - j,
{
    if j < s.len() && class.contains(s[j as int]) {
        lemma_run_end_bounds(s, j + 1, class);
    }
}

pub proof fn lemma_number_end_bounds(s: Seq<char>, j: nat, seen_x: bool)
    requires
        j <= s.len(),
    ensures
        j <= number_end(s, j, seen_x) <= s.len(),
    decreases s.len() - j,
{
    if j < s.len() && is_hex_digit(s[j as int]) {
        lemma_number_end_bounds(s, j + 1, seen_x);
    } else if j < s.len() && s[j as int] == 'x' && !seen_x {
        lemma_number_end_bounds(s, j + 1, true);
    }
}

pub proof fn lemma_block_close_bounds(s: Seq<char>, j: nat)
    requires
        j <= s.len(),
    ensures
        j <= block_close(s, j) <= s.len(),
        block_close(s, j) < s.len() ==> block_close(s, j) + 1 < s.len(),
    decreases s.len() - j,
{
    if j < s.len() && !(j + 1 < s.len() && s[j as int] == '*' && s[(j + 1) as int] == '/') {
        lemma_block_close_bounds(s, j + 1);
    }
}

/// Each step consumes at least one character and stays within the input.
pub proof fn lemma_step_advances(s: Seq<char>, i: nat)
    requires
        i < s.len(),
    ensures
        i < step(s, i).1 <= s.len(),
{
    let c = s[i as int];
    if c == '/' && i + 1 < s.len() && s[(i + 1) as int] == '/' {
        lemma_run_end_bounds(s, i + 2, RunClass::CommentText);
    } else if c == '/' && i + 1 < s.len() && s[(i + 1) as int] == '*' {
        lemma_block_close_bounds(s, i + 2);
    } else if is_blank(c) {
        lemma_run_end_bounds(s, i + 1, RunClass::Blank);
    } else if c == '"' {
        lemma_run_end_bounds(s, i + 1, RunClass::StringText);
    } else if is_digit(c) {
        lemma_number_end_bounds(s, i + 1, false);
    } else if is_alpha(c) {
        lemma_run_end_bounds(s, i + 1, RunClass::Letter);
    }
}

/// The tokens of `s` from position `i` on.
pub open spec fn lex_from(s: Seq<char>, i: nat) -> Seq<TokenView>
    decreases s.len() - i via lex_from_decreases
{
    if i < s.len() {
        let (t, e) = step(s, i);
        seq![t] + lex_from(s, e)
    } else {
        Seq::empty()
    }
}

#[via_fn]
proof fn lex_from_decreases(s: Seq<char>, i: nat) {
    if i < s.len() {
        lemma_step_advances(s, i);
    }
}

/// The tokens of the source `s`.
pub open spec fn lex(s: Seq<char>) -> Seq<TokenView> {
    lex_from(s, 0)
}

/// The sum of the lengths of `ts`.
pub open spec fn total_len(ts: Seq<TokenView>) -> nat
    decreases ts.len(),
{
    if ts.len() == 0 {
        0
    } else {
        ts[0].len + total_len(ts.drop_first())
    }
}

} // verus!

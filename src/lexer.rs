//! The tokenizer: one pass over the characters of the source.
use crate::grammar::{lemma_step_advances, lex, lex_from, step, total_len, RunClass};
use crate::laws::{lemma_lex_from_count, lemma_lex_from_total};
use crate::scan::{alpha, blank, chars_of, digit, scan_block_close, scan_number, scan_run, text_of};
use crate::token::{views, Base, LiteralKind, Token, TokenKind};
use vstd::prelude::*;

verus! {

/// The token that starts at position `i` of `cs`, and the position after it.
pub fn next_token(cs: &Vec<char>, i: usize) -> (r: (Token, usize))
    requires
        i < cs.len(),
    ensures
        r.0@ == step(cs@, i as nat).0,
        r.1 == step(cs@, i as nat).1,
        i < r.1 <= cs.len(),
{
    proof {
        lemma_step_advances(cs@, i as nat);
    }
    let c = cs[i];
    let n = cs.len();
    if c == '/' && i + 1 < n && cs[i + 1] == '/' {
        let e = scan_run(cs, i + 2, RunClass::CommentText);
        (Token::new(TokenKind::LineComment, e - i), e)
    } else if c == '/' && i + 1 < n && cs[i + 1] == '*' {
        let k = scan_block_close(cs, i + 2);
        let e = if k < n {
            k + 2
        } else {
            k
        };
        (Token::new(TokenKind::BlockComment, k - (i + 2) + 1), e)
    } else if blank(c) {
        let e = scan_run(cs, i + 1, RunClass::Blank);
        (Token::new(TokenKind::Whitespace, e - i), e)
    } else if c == '\n' {
        (Token::new(TokenKind::Newline, 1), i + 1)
    } else if c == ';' {
        (Token::new(TokenKind::Semi, 1), i + 1)
    } else if c == ',' {
        (Token::new(TokenKind::Comma, 1), i + 1)
    } else if c == '.' {
        (Token::new(TokenKind::Dot, 1), i + 1)
    } else if c == '(' {
        (Token::new(TokenKind::OpenParenthesis, 1), i + 1)
    } else if c == ')' {
        (Token::new(TokenKind::CloseParenthesis, 1), i + 1)
    } else if c == '{' {
        (Token::new(TokenKind::OpenBrace, 1), i + 1)
    } else if c == '}' {
        (Token::new(TokenKind::CloseBrace, 1), i + 1)
    } else if c == '[' {
        (Token::new(TokenKind::OpenBracket, 1), i + 1)
    } else if c == ']' {
        (Token::new(TokenKind::CloseBracket, 1), i + 1)
    } else if c == '"' {
        let k = scan_run(cs, i + 1, RunClass::StringText);
        let e = if k < n {
            k + 1
        } else {
            k
        };
        let value = text_of(cs, i + 1, k);
        let len = k - (i + 1);
        (Token::new(TokenKind::Literal { kind: LiteralKind::String, value }, len), e)
    } else if digit(c) {
        let (e, seen_x) = scan_number(cs, i + 1);
        proof {
            let whole = cs@.subrange(i as int, e as int);
            let tail = cs@.subrange(i + 1, e as int);
            assert(whole == seq![c] + tail);
            assert(whole.contains('x') == tail.contains('x')) by {
                if whole.contains('x') {
                    let k = choose|k: int| 0 <= k < whole.len() && whole[k] == 'x';
                    assert(tail[k - 1] == 'x');
                }
                if tail.contains('x') {
                    let k = choose|k: int| 0 <= k < tail.len() && tail[k] == 'x';
                    assert(whole[k + 1] == 'x');
                }
            }
        }
        let base = if seen_x {
            Base::Hexadecimal
        } else {
            Base::Decimal
        };
        let value = text_of(cs, i, e);
        (Token::new(TokenKind::Literal { kind: LiteralKind::Int { base }, value }, e - i), e)
    } else if alpha(c) {
        let e = scan_run(cs, i + 1, RunClass::Letter);
        (Token::new(TokenKind::Identifier, e - i), e)
    } else {
        (Token::new(TokenKind::InvalidIdentifier, 1), i + 1)
    }
}

/// Tokenizes `input` in one pass. Every character is classified: one that no
/// rule recognises becomes an `InvalidIdentifier` of length 1, so this never
/// fails.
pub fn parse(input: &'static str) -> (r: Vec<Token>)
    ensures
        views(r@) == lex(input@),
        r@.len() <= input@.len(),
        total_len(views(r@)) <= input@.len(),
{
    let cs = chars_of(input);
    let mut tokens: Vec<Token> = Vec::new();
    let mut pos: usize = 0;
    while pos < cs.len()
        invariant
            pos <= cs.len(),
            views(tokens@) + lex_from(cs@, pos as nat) == lex(cs@),
        decreases cs.len() - pos,
    {
        let (t, next) = next_token(&cs, pos);
        proof {
            let rest = lex_from(cs@, next as nat);
            assert(lex_from(cs@, pos as nat) == seq![t@] + rest);
            assert(views(tokens@.push(t)) == views(tokens@).push(t@));
            assert(views(tokens@) + (seq![t@] + rest) == views(tokens@).push(t@) + rest);
        }
        tokens.push(t);
        pos = next;
    }
    proof {
        assert(lex_from(cs@, pos as nat) == Seq::<crate::token::TokenView>::empty());
        assert(views(tokens@) == lex(cs@));
        lemma_lex_from_count(cs@, 0);
        lemma_lex_from_total(cs@, 0);
    }
    tokens
}

} // verus!

//! Tokens and their mathematical views.
use vstd::prelude::*;

verus! {

/// A classified span of source text: what it is, and how many characters
/// of the source it stands for.
#[derive(Debug, PartialEq, Eq, PartialOrd, Ord)]
pub struct Token {
    pub kind: TokenKind,
    pub len: usize,
}

impl Token {
    pub fn new(kind: TokenKind, len: usize) -> (r: Self)
        ensures
            r.kind == kind,
            r.len == len,
    {
        Self { kind, len }
    }
}

#[derive(Debug, PartialEq, Eq, PartialOrd, Ord)]
pub enum TokenKind {
    /// "// comment"
    LineComment,
    /// `/* block comment */`
    BlockComment,
    /// A run of spaces, tabs and carriage returns.
    Whitespace,
    Identifier,
    /// Any character that no rule of the grammar recognises.
    InvalidIdentifier,
    Literal { kind: LiteralKind, value: String },
    Newline,
    Semi,
    Comma,
    Dot,
    OpenParenthesis,
    CloseParenthesis,
    OpenBrace,
    CloseBrace,
    OpenBracket,
    CloseBracket,
}

#[derive(Debug, Clone, Copy, PartialEq, Eq, PartialOrd, Ord, Structural)]
pub enum LiteralKind {
    Int { base: Base },
    String,
}

/// The radix of an integer literal. Only `Decimal` and `Hexadecimal` are
/// produced by the grammar today; the others are kept for later literal forms.
#[derive(Debug, Clone, Copy, PartialEq, Eq, PartialOrd, Ord, Structural)]
pub enum Base {
    Binary,
    Octal,
    Decimal,
    Hexadecimal,
}

/// What a [`TokenKind`] is, with the literal's text as a sequence of characters.
pub enum KindView {
    LineComment,
    BlockComment,
    Whitespace,
    Identifier,
    InvalidIdentifier,
    Literal { kind: LiteralKind, value: Seq<char> },
    Newline,
    Semi,
    Comma,
    Dot,
    OpenParenthesis,
    CloseParenthesis,
    OpenBrace,
    CloseBrace,
    OpenBracket,
    CloseBracket,
}

/// What a [`Token`] is: its kind and its length as a natural number.
pub struct TokenView {
    pub kind: KindView,
    pub len: nat,
}

impl View for TokenKind {
    type V = KindView;

    open spec fn view(&self) -> KindView {
        match self {
            TokenKind::LineComment => KindView::LineComment,
            TokenKind::BlockComment => KindView::BlockComment,
            TokenKind::Whitespace => KindView::Whitespace,
            TokenKind::Identifier => KindView::Identifier,
            TokenKind::InvalidIdentifier => KindView::InvalidIdentifier,
            TokenKind::Literal { kind, value } => KindView::Literal { kind: *kind, value: value@ },
            TokenKind::Newline => KindView::Newline,
            TokenKind::Semi => KindView::Semi,
            TokenKind::Comma => KindView::Comma,
            TokenKind::Dot => KindView::Dot,
            TokenKind::OpenParenthesis => KindView::OpenParenthesis,
            TokenKind::CloseParenthesis => KindView::CloseParenthesis,
            TokenKind::OpenBrace => KindView::OpenBrace,
            TokenKind::CloseBrace => KindView::CloseBrace,
            TokenKind::OpenBracket => KindView::OpenBracket,
            TokenKind::CloseBracket => KindView::CloseBracket,
        }
    }
}

impl View for Token {
    type V = TokenView;

    open spec fn view(&self) -> TokenView {
        TokenView { kind: self.kind@, len: self.len as nat }
    }
}

/// The views of a sequence of tokens, one for one.
pub open spec fn views(ts: Seq<Token>) -> Seq<TokenView> {
    ts.map_values(|t: Token| t@)
}

} // verus!

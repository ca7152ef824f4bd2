//! A lexer for the Yul stack-machine intermediate language.
//!
//! The entry point is [`parse`], which turns source text into a sequence of
//! [`Token`]s. Its behaviour is stated against the mathematical model in
//! [`grammar`], and the general laws of that model live in [`laws`].
pub mod grammar;
pub mod hex;
pub mod laws;
pub mod lexer;
pub mod scan;
pub mod token;

pub use hex::decode_hex;
pub use lexer::parse;
pub use token::{Base, LiteralKind, Token, TokenKind};

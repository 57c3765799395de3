//! A lexer for a small Rust-like language, verified with Verus.
//!
//! `classify` recognises one token at a time (whitespace and comments, nested
//! block comments included; identifiers and keywords; numbers, characters and
//! strings; symbols by maximal munch). `lexer` holds the cursor and the token
//! stream built on it, with the mathematical definition of the stream that the
//! executable code is proved to follow. `samples` holds small programs over the
//! constructs that the lexer reads.
pub mod classify;
pub mod lexer;
pub mod samples;
pub mod token;

pub use lexer::{tokenize, tokenize_chars, LexOutput, Lexer};
pub use token::{Item, LexError, LexErrorKind, Span, Token, TokenKind};

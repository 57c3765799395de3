//! Tokens, lexical errors and their spans, with their mathematical views.
use vstd::prelude::*;

verus! {

/// What a token is: an identifier, a keyword, a literal, a symbol, or the end of input.
#[derive(Clone, Copy, Debug, PartialEq, Eq, Structural)]
pub enum TokenKind {
    Identifier,
    // keywords
    As,
    Break,
    Const,
    Continue,
    Else,
    Enum,
    False,
    Fn,
    For,
    If,
    Impl,
    In,
    Let,
    Loop,
    Match,
    Mut,
    Pub,
    Return,
    Struct,
    True,
    Use,
    While,
    // literals
    IntegerLiteral,
    FloatLiteral,
    CharLiteral,
    StringLiteral,
    // operators
    Assign,
    Eq,
    Ne,
    Lt,
    Le,
    Gt,
    Ge,
    Plus,
    Minus,
    Star,
    Slash,
    Percent,
    Caret,
    Not,
    BitAnd,
    BitOr,
    LogicalAnd,
    LogicalOr,
    Shl,
    Shr,
    PlusAssign,
    MinusAssign,
    StarAssign,
    SlashAssign,
    PercentAssign,
    CaretAssign,
    AndAssign,
    OrAssign,
    ShlAssign,
    ShrAssign,
    // punctuation
    Dot,
    Range,
    RangeInclusive,
    Comma,
    Semicolon,
    Colon,
    PathSep,
    Arrow,
    FatArrow,
    Question,
    Pound,
    At,
    LParen,
    RParen,
    LBrace,
    RBrace,
    LBracket,
    RBracket,
    /// The terminal marker after the last token.
    Eof,
}

/// The kinds of lexical error; each is recovered from and lexing goes on.
#[derive(Clone, Copy, Debug, PartialEq, Eq, Structural)]
pub enum LexErrorKind {
    UnterminatedBlockComment,
    UnterminatedStringLiteral,
    UnterminatedCharacterLiteral,
    UnexpectedCharacter,
}

/// Where a token or error stands: offsets in characters (`start` inclusive, `end`
/// exclusive), and the 0-based line and column of `start`.
#[derive(Clone, Copy, Debug, PartialEq, Eq, Structural)]
pub struct Span {
    pub start: usize,
    pub end: usize,
    pub line: usize,
    pub column: usize,
}

/// A token: its kind, the exact text it was lexed from, and where that text stands.
#[derive(Clone, Debug)]
pub struct Token {
    pub kind: TokenKind,
    pub text: Vec<char>,
    pub span: Span,
}

/// A lexical error and the text it covers.
#[derive(Clone, Copy, Debug, PartialEq, Eq, Structural)]
pub struct LexError {
    pub kind: LexErrorKind,
    pub span: Span,
}

/// One item of the token stream: a token, or an error reported in its place.
#[derive(Clone, Debug)]
pub enum Item {
    Token(Token),
    Error(LexError),
}

/// The mathematical value of a token.
pub struct TokenView {
    pub kind: TokenKind,
    pub text: Seq<char>,
    pub start: nat,
    pub end: nat,
    pub line: nat,
    pub column: nat,
}

/// The mathematical value of a lexical error.
pub struct ErrorView {
    pub kind: LexErrorKind,
    pub start: nat,
    pub end: nat,
    pub line: nat,
    pub column: nat,
}

/// The mathematical value of a stream item.
pub enum ItemView {
    Token(TokenView),
    Error(ErrorView),
}

impl View for Token {
    type V = TokenView;

    open spec fn view(&self) -> TokenView {
        TokenView {
            kind: self.kind,
            text: self.text@,
            start: self.span.start as nat,
            end: self.span.end as nat,
            line: self.span.line as nat,
            column: self.span.column as nat,
        }
    }
}

impl View for LexError {
    type V = ErrorView;

    open spec fn view(&self) -> ErrorView {
        ErrorView {
            kind: self.kind,
            start: self.span.start as nat,
            end: self.span.end as nat,
            line: self.span.line as nat,
            column: self.span.column as nat,
        }
    }
}

impl View for Item {
    type V = ItemView;

    open spec fn view(&self) -> ItemView {
        match self {
            Item::Token(t) => ItemView::Token(t@),
            Item::Error(e) => ItemView::Error(e@),
        }
    }
}

} // verus!

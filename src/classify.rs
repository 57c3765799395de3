//! The classifier: recognises the one token (or trivia, or error) that starts at a
//! given offset, as spec functions over the input and as executable code proved
//! to agree with them.
use vstd::prelude::*;
use crate::token::{LexErrorKind, TokenKind};

verus! {

pub open spec fn is_whitespace(c: char) -> bool {
    c == ' ' || c == '\t' || c == '\n' || c == '\r'
}

pub open spec fn is_digit(c: char) -> bool {
    '0' <= c && c <= '9'
}

/// Identifiers start with an ASCII letter or an underscore.
pub open spec fn is_ident_start(c: char) -> bool {
    ('a' <= c && c <= 'z') || ('A' <= c && c <= 'Z') || c == '_'
}

pub open spec fn is_ident_continue(c: char) -> bool {
    is_ident_start(c) || is_digit(c)
}

/// The end of the maximal run of whitespace from `i`.
pub open spec fn whitespace_end(s: Seq<char>, i: int) -> int
    decreases s.len() - i,
{
    if 0 <= i < s.len() && is_whitespace(s[i]) {
        whitespace_end(s, i + 1)
    } else {
        i
    }
}

/// The end of the maximal run of identifier characters from `i`.
pub open spec fn ident_end(s: Seq<char>, i: int) -> int
    decreases s.len() - i,
{
    if 0 <= i < s.len() && is_ident_continue(s[i]) {
        ident_end(s, i + 1)
    } else {
        i
    }
}

/// The end of the maximal run of digits from `i`.
pub open spec fn digits_end(s: Seq<char>, i: int) -> int
    decreases s.len() - i,
{
    if 0 <= i < s.len() && is_digit(s[i]) {
        digits_end(s, i + 1)
    } else {
        i
    }
}

/// The position of the first newline at or after `i`, or the end of input.
pub open spec fn line_end(s: Seq<char>, i: int) -> int
    decreases s.len() - i,
{
    if 0 <= i < s.len() && s[i] != '\n' {
        line_end(s, i + 1)
    } else {
        i
    }
}

/// Scanning a block comment at `i` with `depth` comments open: the position just
/// after the `*/` that closes the outermost one, or `None` at end of input.
pub open spec fn block_end(s: Seq<char>, i: int, depth: nat) -> Option<int>
    decreases s.len() - i,
{
    if i < 0 || i + 1 >= s.len() {
        None
    } else if s[i] == '/' && s[i + 1] == '*' {
        block_end(s, i + 2, depth + 1)
    } else if s[i] == '*' && s[i + 1] == '/' {
        if depth <= 1 {
            Some(i + 2)
        } else {
            block_end(s, i + 2, (depth - 1) as nat)
        }
    } else {
        block_end(s, i + 1, depth)
    }
}

/// Scanning the body of a string literal at `i`: the position just after the
/// closing unescaped quote, or `None` at end of input.
pub open spec fn string_end(s: Seq<char>, i: int) -> Option<int>
    decreases s.len() - i,
{
    if i < 0 || i >= s.len() {
        None
    } else if s[i] == '"' {
        Some(i + 1)
    } else if s[i] == '\\' {
        if i + 1 < s.len() {
            string_end(s, i + 2)
        } else {
            None
        }
    } else {
        string_end(s, i + 1)
    }
}

/// A character literal at `i` (where `s[i]` is a quote): one character, or a
/// backslash and one character, then a closing quote. The end of the literal,
/// or `None` when it is not closed there.
pub open spec fn char_end(s: Seq<char>, i: int) -> Option<int> {
    if 0 <= i && i + 2 < s.len() && s[i + 1] == '\\' {
        if i + 3 < s.len() && s[i + 3] == '\'' {
            Some(i + 4)
        } else {
            None
        }
    } else if 0 <= i && i + 2 < s.len() && s[i + 1] != '\'' && s[i + 2] == '\'' {
        Some(i + 3)
    } else {
        None
    }
}

/// Whether the text `s[start..end]` is exactly `w`.
fn text_is(s: &Vec<char>, start: usize, end: usize, w: &[char]) -> (r: bool)
    requires
        start <= end <= s@.len(),
    ensures
        r == (s@.subrange(start as int, end as int) == w@),
{
    if end - start != w.len() {
        return false;
    }
    let mut k: usize = 0;
    while k < w.len()
        invariant
            k <= w@.len(),
            end - start == w@.len(),
            start <= end <= s@.len(),
            forall|j: int| 0 <= j < k ==> s@[start + j] == w@[j],
        decreases w@.len() - k,
    {
        if s[start + k] != w[k] {
            assert(s@.subrange(start as int, end as int)[k as int] != w@[k as int]);
            return false;
        }
        k += 1;
    }
    assert(s@.subrange(start as int, end as int) =~= w@);
    true
}

/// The three-character symbols.
pub open spec fn symbol3(a: char, b: char, c: char) -> Option<TokenKind> {
    match (a, b, c) {
        ('.', '.', '=') => Some(TokenKind::RangeInclusive),
        ('<', '<', '=') => Some(TokenKind::ShlAssign),
        ('>', '>', '=') => Some(TokenKind::ShrAssign),
        _ => None,
    }
}

/// The two-character symbols.
pub open spec fn symbol2(a: char, b: char) -> Option<TokenKind> {
    match (a, b) {
        ('=', '=') => Some(TokenKind::Eq),
        ('!', '=') => Some(TokenKind::Ne),
        ('<', '=') => Some(TokenKind::Le),
        ('>', '=') => Some(TokenKind::Ge),
        ('&', '&') => Some(TokenKind::LogicalAnd),
        ('|', '|') => Some(TokenKind::LogicalOr),
        ('<', '<') => Some(TokenKind::Shl),
        ('>', '>') => Some(TokenKind::Shr),
        ('+', '=') => Some(TokenKind::PlusAssign),
        ('-', '=') => Some(TokenKind::MinusAssign),
        ('*', '=') => Some(TokenKind::StarAssign),
        ('/', '=') => Some(TokenKind::SlashAssign),
        ('%', '=') => Some(TokenKind::PercentAssign),
        ('^', '=') => Some(TokenKind::CaretAssign),
        ('&', '=') => Some(TokenKind::AndAssign),
        ('|', '=') => Some(TokenKind::OrAssign),
        ('.', '.') => Some(TokenKind::Range),
        (':', ':') => Some(TokenKind::PathSep),
        ('-', '>') => Some(TokenKind::Arrow),
        ('=', '>') => Some(TokenKind::FatArrow),
        _ => None,
    }
}

/// The one-character symbols.
pub open spec fn symbol1(a: char) -> Option<TokenKind> {
    match a {
        '=' => Some(TokenKind::Assign),
        '<' => Some(TokenKind::Lt),
        '>' => Some(TokenKind::Gt),
        '+' => Some(TokenKind::Plus),
        '-' => Some(TokenKind::Minus),
        '*' => Some(TokenKind::Star),
        '/' => Some(TokenKind::Slash),
        '%' => Some(TokenKind::Percent),
        '^' => Some(TokenKind::Caret),
        '!' => Some(TokenKind::Not),
        '&' => Some(TokenKind::BitAnd),
        '|' => Some(TokenKind::BitOr),
        '.' => Some(TokenKind::Dot),
        ',' => Some(TokenKind::Comma),
        ';' => Some(TokenKind::Semicolon),
        ':' => Some(TokenKind::Colon),
        '?' => Some(TokenKind::Question),
        '#' => Some(TokenKind::Pound),
        '@' => Some(TokenKind::At),
        '(' => Some(TokenKind::LParen),
        ')' => Some(TokenKind::RParen),
        '{' => Some(TokenKind::LBrace),
        '}' => Some(TokenKind::RBrace),
        '[' => Some(TokenKind::LBracket),
        ']' => Some(TokenKind::RBracket),
        _ => None,
    }
}

/// The keyword that an identifier-shaped text stands for, if any.
pub open spec fn keyword_of(w: Seq<char>) -> Option<TokenKind> {
    if w == seq!['a', 's'] {
        Some(TokenKind::As)
    } else if w == seq!['b', 'r', 'e', 'a', 'k'] {
        Some(TokenKind::Break)
    } else if w == seq!['c', 'o', 'n', 's', 't'] {
        Some(TokenKind::Const)
    } else if w == seq!['c', 'o', 'n', 't', 'i', 'n', 'u', 'e'] {
        Some(TokenKind::Continue)
    } else if w == seq!['e', 'l', 's', 'e'] {
        Some(TokenKind::Else)
    } else if w == seq!['e', 'n', 'u', 'm'] {
        Some(TokenKind::Enum)
    } else if w == seq!['f', 'a', 'l', 's', 'e'] {
        Some(TokenKind::False)
    } else if w == seq!['f', 'n'] {
        Some(TokenKind::Fn)
    } else if w == seq!['f', 'o', 'r'] {
        Some(TokenKind::For)
    } else if w == seq!['i', 'f'] {
        Some(TokenKind::If)
    } else if w == seq!['i', 'm', 'p', 'l'] {
        Some(TokenKind::Impl)
    } else if w == seq!['i', 'n'] {
        Some(TokenKind::In)
    } else if w == seq!['l', 'e', 't'] {
        Some(TokenKind::Let)
    } else if w == seq!['l', 'o', 'o', 'p'] {
        Some(TokenKind::Loop)
    } else if w == seq!['m', 'a', 't', 'c', 'h'] {
        Some(TokenKind::Match)
    } else if w == seq!['m', 'u', 't'] {
        Some(TokenKind::Mut)
    } else if w == seq!['p', 'u', 'b'] {
        Some(TokenKind::Pub)
    } else if w == seq!['r', 'e', 't', 'u', 'r', 'n'] {
        Some(TokenKind::Return)
    } else if w == seq!['s', 't', 'r', 'u', 'c', 't'] {
        Some(TokenKind::Struct)
    } else if w == seq!['t', 'r', 'u', 'e'] {
        Some(TokenKind::True)
    } else if w == seq!['u', 's', 'e'] {
        Some(TokenKind::Use)
    } else if w == seq!['w', 'h', 'i', 'l', 'e'] {
        Some(TokenKind::While)
    } else {
        None
    }
}

/// Looks three characters up in the three-character symbol table.
pub fn symbol3_exec(a: char, b: char, c: char) -> (r: Option<TokenKind>)
    ensures
        r == symbol3(a, b, c),
{
    match (a, b, c) {
        ('.', '.', '=') => Some(TokenKind::RangeInclusive),
        ('<', '<', '=') => Some(TokenKind::ShlAssign),
        ('>', '>', '=') => Some(TokenKind::ShrAssign),
        _ => None,
    }
}

/// Looks two characters up in the two-character symbol table.
pub fn symbol2_exec(a: char, b: char) -> (r: Option<TokenKind>)
    ensures
        r == symbol2(a, b),
{
    match (a, b) {
        ('=', '=') => Some(TokenKind::Eq),
        ('!', '=') => Some(TokenKind::Ne),
        ('<', '=') => Some(TokenKind::Le),
        ('>', '=') => Some(TokenKind::Ge),
        ('&', '&') => Some(TokenKind::LogicalAnd),
        ('|', '|') => Some(TokenKind::LogicalOr),
        ('<', '<') => Some(TokenKind::Shl),
        ('>', '>') => Some(TokenKind::Shr),
        ('+', '=') => Some(TokenKind::PlusAssign),
        ('-', '=') => Some(TokenKind::MinusAssign),
        ('*', '=') => Some(TokenKind::StarAssign),
        ('/', '=') => Some(TokenKind::SlashAssign),
        ('%', '=') => Some(TokenKind::PercentAssign),
        ('^', '=') => Some(TokenKind::CaretAssign),
        ('&', '=') => Some(TokenKind::AndAssign),
        ('|', '=') => Some(TokenKind::OrAssign),
        ('.', '.') => Some(TokenKind::Range),
        (':', ':') => Some(TokenKind::PathSep),
        ('-', '>') => Some(TokenKind::Arrow),
        ('=', '>') => Some(TokenKind::FatArrow),
        _ => None,
    }
}

/// Looks a character up in the one-character symbol table.
pub fn symbol1_exec(a: char) -> (r: Option<TokenKind>)
    ensures
        r == symbol1(a),
{
    match a {
        '=' => Some(TokenKind::Assign),
        '<' => Some(TokenKind::Lt),
        '>' => Some(TokenKind::Gt),
        '+' => Some(TokenKind::Plus),
        '-' => Some(TokenKind::Minus),
        '*' => Some(TokenKind::Star),
        '/' => Some(TokenKind::Slash),
        '%' => Some(TokenKind::Percent),
        '^' => Some(TokenKind::Caret),
        '!' => Some(TokenKind::Not),
        '&' => Some(TokenKind::BitAnd),
        '|' => Some(TokenKind::BitOr),
        '.' => Some(TokenKind::Dot),
        ',' => Some(TokenKind::Comma),
        ';' => Some(TokenKind::Semicolon),
        ':' => Some(TokenKind::Colon),
        '?' => Some(TokenKind::Question),
        '#' => Some(TokenKind::Pound),
        '@' => Some(TokenKind::At),
        '(' => Some(TokenKind::LParen),
        ')' => Some(TokenKind::RParen),
        '{' => Some(TokenKind::LBrace),
        '}' => Some(TokenKind::RBrace),
        '[' => Some(TokenKind::LBracket),
        ']' => Some(TokenKind::RBracket),
        _ => None,
    }
}

/// Looks the text `s[start..end]` up in the keyword table.
pub fn keyword_kind(s: &Vec<char>, start: usize, end: usize) -> (r: Option<TokenKind>)
    requires
        start <= end <= s@.len(),
    ensures
        r == keyword_of(s@.subrange(start as int, end as int)),
{
    let w: [char; 2] = ['a', 's'];
    assert(w@ =~= seq!['a', 's']);
    if text_is(s, start, end, &w) {
        return Some(TokenKind::As);
    }
    let w: [char; 5] = ['b', 'r', 'e', 'a', 'k'];
    assert(w@ =~= seq!['b', 'r', 'e', 'a', 'k']);
    if text_is(s, start, end, &w) {
        return Some(TokenKind::Break);
    }
    let w: [char; 5] = ['c', 'o', 'n', 's', 't'];
    assert(w@ =~= seq!['c', 'o', 'n', 's', 't']);
    if text_is(s, start, end, &w) {
        return Some(TokenKind::Const);
    }
    let w: [char; 8] = ['c', 'o', 'n', 't', 'i', 'n', 'u', 'e'];
    assert(w@ =~= seq!['c', 'o', 'n', 't', 'i', 'n', 'u', 'e']);
    if text_is(s, start, end, &w) {
        return Some(TokenKind::Continue);
    }
    let w: [char; 4] = ['e', 'l', 's', 'e'];
    assert(w@ =~= seq!['e', 'l', 's', 'e']);
    if text_is(s, start, end, &w) {
        return Some(TokenKind::Else);
    }
    let w: [char; 4] = ['e', 'n', 'u', 'm'];
    assert(w@ =~= seq!['e', 'n', 'u', 'm']);
    if text_is(s, start, end, &w) {
        return Some(TokenKind::Enum);
    }
    let w: [char; 5] = ['f', 'a', 'l', 's', 'e'];
    assert(w@ =~= seq!['f', 'a', 'l', 's', 'e']);
    if text_is(s, start, end, &w) {
        return Some(TokenKind::False);
    }
    let w: [char; 2] = ['f', 'n'];
    assert(w@ =~= seq!['f', 'n']);
    if text_is(s, start, end, &w) {
        return Some(TokenKind::Fn);
    }
    let w: [char; 3] = ['f', 'o', 'r'];
    assert(w@ =~= seq!['f', 'o', 'r']);
    if text_is(s, start, end, &w) {
        return Some(TokenKind::For);
    }
    let w: [char; 2] = ['i', 'f'];
    assert(w@ =~= seq!['i', 'f']);
    if text_is(s, start, end, &w) {
        return Some(TokenKind::If);
    }
    let w: [char; 4] = ['i', 'm', 'p', 'l'];
    assert(w@ =~= seq!['i', 'm', 'p', 'l']);
    if text_is(s, start, end, &w) {
        return Some(TokenKind::Impl);
    }
    let w: [char; 2] = ['i', 'n'];
    assert(w@ =~= seq!['i', 'n']);
    if text_is(s, start, end, &w) {
        return Some(TokenKind::In);
    }
    let w: [char; 3] = ['l', 'e', 't'];
    assert(w@ =~= seq!['l', 'e', 't']);
    if text_is(s, start, end, &w) {
        return Some(TokenKind::Let);
    }
    let w: [char; 4] = ['l', 'o', 'o', 'p'];
    assert(w@ =~= seq!['l', 'o', 'o', 'p']);
    if text_is(s, start, end, &w) {
        return Some(TokenKind::Loop);
    }
    let w: [char; 5] = ['m', 'a', 't', 'c', 'h'];
    assert(w@ =~= seq!['m', 'a', 't', 'c', 'h']);
    if text_is(s, start, end, &w) {
        return Some(TokenKind::Match);
    }
    let w: [char; 3] = ['m', 'u', 't'];
    assert(w@ =~= seq!['m', 'u', 't']);
    if text_is(s, start, end, &w) {
        return Some(TokenKind::Mut);
    }
    let w: [char; 3] = ['p', 'u', 'b'];
    assert(w@ =~= seq!['p', 'u', 'b']);
    if text_is(s, start, end, &w) {
        return Some(TokenKind::Pub);
    }
    let w: [char; 6] = ['r', 'e', 't', 'u', 'r', 'n'];
    assert(w@ =~= seq!['r', 'e', 't', 'u', 'r', 'n']);
    if text_is(s, start, end, &w) {
        return Some(TokenKind::Return);
    }
    let w: [char; 6] = ['s', 't', 'r', 'u', 'c', 't'];
    assert(w@ =~= seq!['s', 't', 'r', 'u', 'c', 't']);
    if text_is(s, start, end, &w) {
        return Some(TokenKind::Struct);
    }
    let w: [char; 4] = ['t', 'r', 'u', 'e'];
    assert(w@ =~= seq!['t', 'r', 'u', 'e']);
    if text_is(s, start, end, &w) {
        return Some(TokenKind::True);
    }
    let w: [char; 3] = ['u', 's', 'e'];
    assert(w@ =~= seq!['u', 's', 'e']);
    if text_is(s, start, end, &w) {
        return Some(TokenKind::Use);
    }
    let w: [char; 5] = ['w', 'h', 'i', 'l', 'e'];
    assert(w@ =~= seq!['w', 'h', 'i', 'l', 'e']);
    if text_is(s, start, end, &w) {
        return Some(TokenKind::While);
    }
    None
}
/// What the text at a position turns out to be.
#[derive(Clone, Copy, Debug, PartialEq, Eq, Structural)]
pub enum Outcome {
    /// Whitespace or a comment: consumed, nothing emitted.
    Trivia,
    Token(TokenKind),
    Error(LexErrorKind),
}

pub open spec fn identifier_or_keyword(w: Seq<char>) -> TokenKind {
    match keyword_of(w) {
        Some(k) => k,
        None => TokenKind::Identifier,
    }
}

/// The symbol at `i` by maximal munch: the longest entry of the symbol tables that
/// the text at `i` starts with, and its length.
pub open spec fn symbol_at(s: Seq<char>, i: int) -> Option<(TokenKind, int)> {
    if i + 2 < s.len() && symbol3(s[i], s[i + 1], s[i + 2]) is Some {
        Some((symbol3(s[i], s[i + 1], s[i + 2])->0, 3))
    } else if i + 1 < s.len() && symbol2(s[i], s[i + 1]) is Some {
        Some((symbol2(s[i], s[i + 1])->0, 2))
    } else if symbol1(s[i]) is Some {
        Some((symbol1(s[i])->0, 1))
    } else {
        None
    }
}

/// Classifies the text at `i` (with `0 <= i < s.len()`), trying the rules in
/// priority order: whitespace, line comment, block comment, identifier or
/// keyword, number, character literal, string literal, symbol. Gives the outcome
/// and the position just after the consumed text; an unterminated construct is
/// consumed to the end of input, an unexpected character alone.
pub open spec fn scan(s: Seq<char>, i: int) -> (Outcome, int) {
    let c = s[i];
    if is_whitespace(c) {
        (Outcome::Trivia, whitespace_end(s, i + 1))
    } else if c == '/' && i + 1 < s.len() && s[i + 1] == '/' {
        (Outcome::Trivia, line_end(s, i + 2))
    } else if c == '/' && i + 1 < s.len() && s[i + 1] == '*' {
        match block_end(s, i + 2, 1) {
            Some(e) => (Outcome::Trivia, e),
            None => (Outcome::Error(LexErrorKind::UnterminatedBlockComment), s.len() as int),
        }
    } else if is_ident_start(c) {
        let e = ident_end(s, i + 1);
        (Outcome::Token(identifier_or_keyword(s.subrange(i, e))), e)
    } else if is_digit(c) {
        let d = digits_end(s, i + 1);
        if d + 1 < s.len() && s[d] == '.' && is_digit(s[d + 1]) {
            (Outcome::Token(TokenKind::FloatLiteral), digits_end(s, d + 1))
        } else {
            (Outcome::Token(TokenKind::IntegerLiteral), d)
        }
    } else if c == '\'' {
        match char_end(s, i) {
            Some(e) => (Outcome::Token(TokenKind::CharLiteral), e),
            None => (Outcome::Error(LexErrorKind::UnterminatedCharacterLiteral), s.len() as int),
        }
    } else if c == '"' {
        match string_end(s, i + 1) {
            Some(e) => (Outcome::Token(TokenKind::StringLiteral), e),
            None => (Outcome::Error(LexErrorKind::UnterminatedStringLiteral), s.len() as int),
        }
    } else {
        match symbol_at(s, i) {
            Some((k, n)) => (Outcome::Token(k), i + n),
            None => (Outcome::Error(LexErrorKind::UnexpectedCharacter), i + 1),
        }
    }
}

pub proof fn lemma_whitespace_end_bounds(s: Seq<char>, i: int)
    requires
        0 <= i <= s.len(),
    ensures
        i <= whitespace_end(s, i) <= s.len(),
    decreases s.len() - i,
{
    if i < s.len() && is_whitespace(s[i]) {
        lemma_whitespace_end_bounds(s, i + 1);
    }
}

pub proof fn lemma_ident_end_bounds(s: Seq<char>, i: int)
    requires
        0 <= i <= s.len(),
    ensures
        i <= ident_end(s, i) <= s.len(),
    decreases s.len() - i,
{
    if i < s.len() && is_ident_continue(s[i]) {
        lemma_ident_end_bounds(s, i + 1);
    }
}

pub proof fn lemma_digits_end_bounds(s: Seq<char>, i: int)
    requires
        0 <= i <= s.len(),
    ensures
        i <= digits_end(s, i) <= s.len(),
    decreases s.len() - i,
{
    if i < s.len() && is_digit(s[i]) {
        lemma_digits_end_bounds(s, i + 1);
    }
}

pub proof fn lemma_line_end_bounds(s: Seq<char>, i: int)
    requires
        0 <= i <= s.len(),
    ensures
        i <= line_end(s, i) <= s.len(),
    decreases s.len() - i,
{
    if i < s.len() && s[i] != '\n' {
        lemma_line_end_bounds(s, i + 1);
    }
}

pub proof fn lemma_block_end_bounds(s: Seq<char>, i: int, depth: nat)
    requires
        0 <= i,
        block_end(s, i, depth) is Some,
    ensures
        i < block_end(s, i, depth)->0 <= s.len(),
    decreases s.len() - i,
{
    if s[i] == '/' && s[i + 1] == '*' {
        lemma_block_end_bounds(s, i + 2, depth + 1);
    } else if s[i] == '*' && s[i + 1] == '/' {
        if depth > 1 {
            lemma_block_end_bounds(s, i + 2, (depth - 1) as nat);
        }
    } else {
        lemma_block_end_bounds(s, i + 1, depth);
    }
}

pub proof fn lemma_string_end_bounds(s: Seq<char>, i: int)
    requires
        0 <= i,
        string_end(s, i) is Some,
    ensures
        i < string_end(s, i)->0 <= s.len(),
    decreases s.len() - i,
{
    if s[i] == '"' {
    } else if s[i] == '\\' {
        lemma_string_end_bounds(s, i + 2);
    } else {
        lemma_string_end_bounds(s, i + 1);
    }
}

/// Every classification consumes at least one character and stays within the input.
pub proof fn lemma_scan_advances(s: Seq<char>, i: int)
    requires
        0 <= i < s.len(),
    ensures
        i < scan(s, i).1 <= s.len(),
{
    lemma_whitespace_end_bounds(s, i + 1);
    lemma_ident_end_bounds(s, i + 1);
    lemma_digits_end_bounds(s, i + 1);
    lemma_line_end_bounds(s, i + 1);
    if i + 2 <= s.len() {
        lemma_line_end_bounds(s, i + 2);
    }
    if block_end(s, i + 2, 1) is Some {
        lemma_block_end_bounds(s, i + 2, 1);
    }
    if string_end(s, i + 1) is Some {
        lemma_string_end_bounds(s, i + 1);
    }
    let d = digits_end(s, i + 1);
    if 0 <= d && d + 1 < s.len() {
        lemma_digits_end_bounds(s, d + 1);
    }
}

pub fn is_whitespace_char(c: char) -> (r: bool)
    ensures
        r == is_whitespace(c),
{
    c == ' ' || c == '\t' || c == '\n' || c == '\r'
}

pub fn is_digit_char(c: char) -> (r: bool)
    ensures
        r == is_digit(c),
{
    '0' <= c && c <= '9'
}

pub fn is_ident_start_char(c: char) -> (r: bool)
    ensures
        r == is_ident_start(c),
{
    ('a' <= c && c <= 'z') || ('A' <= c && c <= 'Z') || c == '_'
}

pub fn is_ident_continue_char(c: char) -> (r: bool)
    ensures
        r == is_ident_continue(c),
{
    is_ident_start_char(c) || is_digit_char(c)
}

/// The end of the run of whitespace from `i`.
fn scan_whitespace_end(s: &Vec<char>, i: usize) -> (e: usize)
    requires
        i <= s@.len(),
    ensures
        e == whitespace_end(s@, i as int),
{
    let mut j: usize = i;
    while j < s.len() && is_whitespace_char(s[j])
        invariant
            i <= j <= s@.len(),
            whitespace_end(s@, i as int) == whitespace_end(s@, j as int),
        decreases s@.len() - j,
    {
        j += 1;
    }
    j
}

/// The end of the run of identifier characters from `i`.
fn scan_ident_end(s: &Vec<char>, i: usize) -> (e: usize)
    requires
        i <= s@.len(),
    ensures
        e == ident_end(s@, i as int),
{
    let mut j: usize = i;
    while j < s.len() && is_ident_continue_char(s[j])
        invariant
            i <= j <= s@.len(),
            ident_end(s@, i as int) == ident_end(s@, j as int),
        decreases s@.len() - j,
    {
        j += 1;
    }
    j
}

/// The end of the run of digits from `i`.
fn scan_digits_end(s: &Vec<char>, i: usize) -> (e: usize)
    requires
        i <= s@.len(),
    ensures
        e == digits_end(s@, i as int),
{
    let mut j: usize = i;
    while j < s.len() && is_digit_char(s[j])
        invariant
            i <= j <= s@.len(),
            digits_end(s@, i as int) == digits_end(s@, j as int),
        decreases s@.len() - j,
    {
        j += 1;
    }
    j
}

/// The end of the line that holds `i`, newline excluded.
fn scan_line_end(s: &Vec<char>, i: usize) -> (e: usize)
    requires
        i <= s@.len(),
    ensures
        e == line_end(s@, i as int),
{
    let mut j: usize = i;
    while j < s.len() && s[j] != '\n'
        invariant
            i <= j <= s@.len(),
            line_end(s@, i as int) == line_end(s@, j as int),
        decreases s@.len() - j,
    {
        j += 1;
    }
    j
}

/// Scans a block comment whose opening `/*` ends at `i`, counting nesting depth
/// with a plain counter.
fn scan_block_end(s: &Vec<char>, i: usize) -> (r: Option<usize>)
    requires
        2 <= i <= s@.len(),
    ensures
        r matches Some(e) ==> block_end(s@, i as int, 1) == Some(e as int),
        r is None ==> block_end(s@, i as int, 1) is None,
{
    let mut j: usize = i;
    let mut depth: usize = 1;
    let n = s.len();
    while n - j > 1
        invariant
            n == s@.len(),
            2 <= j <= s@.len(),
            1 <= depth <= j,
            block_end(s@, i as int, 1) == block_end(s@, j as int, depth as nat),
        decreases s@.len() - j,
    {
        if s[j] == '/' && s[j + 1] == '*' {
            depth += 1;
            j += 2;
        } else if s[j] == '*' && s[j + 1] == '/' {
            if depth == 1 {
                return Some(j + 2);
            }
            depth -= 1;
            j += 2;
        } else {
            j += 1;
        }
    }
    None
}

/// Scans the body of a string literal that starts at `i`.
fn scan_string_end(s: &Vec<char>, i: usize) -> (r: Option<usize>)
    requires
        i <= s@.len(),
    ensures
        r matches Some(e) ==> string_end(s@, i as int) == Some(e as int),
        r is None ==> string_end(s@, i as int) is None,
{
    let mut j: usize = i;
    while j < s.len()
        invariant
            i <= j <= s@.len(),
            string_end(s@, i as int) == string_end(s@, j as int),
        decreases s@.len() - j,
    {
        if s[j] == '"' {
            return Some(j + 1);
        } else if s[j] == '\\' {
            if j + 1 < s.len() {
                j += 2;
            } else {
                return None;
            }
        } else {
            j += 1;
        }
    }
    None
}

/// Scans a character literal whose opening quote stands at `i`.
fn scan_char_end(s: &Vec<char>, i: usize) -> (r: Option<usize>)
    requires
        i < s@.len(),
    ensures
        r matches Some(e) ==> char_end(s@, i as int) == Some(e as int),
        r is None ==> char_end(s@, i as int) is None,
{
    let n = s.len();
    if n - i > 2 && s[i + 1] == '\\' {
        if n - i > 3 && s[i + 3] == '\'' {
            Some(i + 4)
        } else {
            None
        }
    } else if n - i > 2 && s[i + 1] != '\'' && s[i + 2] == '\'' {
        Some(i + 3)
    } else {
        None
    }
}

/// The longest symbol at `i`, and its length.
fn scan_symbol(s: &Vec<char>, i: usize) -> (r: Option<(TokenKind, usize)>)
    requires
        i < s@.len(),
    ensures
        r matches Some((k, n)) ==> symbol_at(s@, i as int) == Some((k, n as int)),
        r is None ==> symbol_at(s@, i as int) is None,
{
    let n = s.len();
    if n - i > 2 {
        if let Some(k) = symbol3_exec(s[i], s[i + 1], s[i + 2]) {
            return Some((k, 3));
        }
    }
    if n - i > 1 {
        if let Some(k) = symbol2_exec(s[i], s[i + 1]) {
            return Some((k, 2));
        }
    }
    match symbol1_exec(s[i]) {
        Some(k) => Some((k, 1)),
        None => None,
    }
}

/// Classifies the text at `i`: the outcome of `scan`, and where it ends.
pub fn scan_exec(s: &Vec<char>, i: usize) -> (r: (Outcome, usize))
    requires
        i < s@.len(),
    ensures
        r.0 == scan(s@, i as int).0,
        r.1 == scan(s@, i as int).1,
{
    let n = s.len();
    let c = s[i];
    if is_whitespace_char(c) {
        (Outcome::Trivia, scan_whitespace_end(s, i + 1))
    } else if c == '/' && i + 1 < n && s[i + 1] == '/' {
        (Outcome::Trivia, scan_line_end(s, i + 2))
    } else if c == '/' && i + 1 < n && s[i + 1] == '*' {
        match scan_block_end(s, i + 2) {
            Some(e) => (Outcome::Trivia, e),
            None => (Outcome::Error(LexErrorKind::UnterminatedBlockComment), s.len()),
        }
    } else if is_ident_start_char(c) {
        let e = scan_ident_end(s, i + 1);
        proof {
            lemma_ident_end_bounds(s@, i + 1);
        }
        let k = match keyword_kind(s, i, e) {
            Some(k) => k,
            None => TokenKind::Identifier,
        };
        (Outcome::Token(k), e)
    } else if is_digit_char(c) {
        let d = scan_digits_end(s, i + 1);
        proof {
            lemma_digits_end_bounds(s@, i + 1);
        }
        if d < n && n - d > 1 && s[d] == '.' && is_digit_char(s[d + 1]) {
            (Outcome::Token(TokenKind::FloatLiteral), scan_digits_end(s, d + 1))
        } else {
            (Outcome::Token(TokenKind::IntegerLiteral), d)
        }
    } else if c == '\'' {
        match scan_char_end(s, i) {
            Some(e) => (Outcome::Token(TokenKind::CharLiteral), e),
            None => (Outcome::Error(LexErrorKind::UnterminatedCharacterLiteral), s.len()),
        }
    } else if c == '"' {
        match scan_string_end(s, i + 1) {
            Some(e) => (Outcome::Token(TokenKind::StringLiteral), e),
            None => (Outcome::Error(LexErrorKind::UnterminatedStringLiteral), s.len()),
        }
    } else {
        match scan_symbol(s, i) {
            Some((k, n)) => (Outcome::Token(k), i + n),
            None => (Outcome::Error(LexErrorKind::UnexpectedCharacter), i + 1),
        }
    }
}

} // verus!

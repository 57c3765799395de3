use rlex::lexer::{chars_of, tokenize, tokenize_chars, LexOutput, Lexer};
use rlex::token::{Item, LexErrorKind, Span, Token, TokenKind};

fn text(t: &Token) -> String {
    t.text.iter().collect()
}

fn kinds(out: &LexOutput) -> Vec<TokenKind> {
    out.tokens.iter().map(|t| t.kind).collect()
}

fn texts(out: &LexOutput) -> Vec<String> {
    out.tokens.iter().map(text).collect()
}

fn span(start: usize, end: usize, line: usize, column: usize) -> Span {
    Span { start, end, line, column }
}

#[test]
fn relexing_gives_identical_sequences() {
    let src = "fn main() { let x = 1..3; /* c /* d */ */ 'a' \"s\" $ 2.5 }\n/* open";
    let a = tokenize(src);
    let b = tokenize(src);
    assert_eq!(kinds(&a), kinds(&b));
    assert_eq!(texts(&a), texts(&b));
    let sa: Vec<Span> = a.tokens.iter().map(|t| t.span).collect();
    let sb: Vec<Span> = b.tokens.iter().map(|t| t.span).collect();
    assert_eq!(sa, sb);
    assert_eq!(a.errors, b.errors);
    assert_eq!(a.errors.len(), 2);
}

#[test]
fn keyword_prefix_stays_identifier() {
    let out = tokenize("if123");
    assert_eq!(kinds(&out), vec![TokenKind::Identifier, TokenKind::Eof]);
    assert_eq!(text(&out.tokens[0]), "if123");
    assert!(out.errors.is_empty());
}

#[test]
fn keyword_then_assign_then_integer() {
    let out = tokenize("if=123");
    assert_eq!(
        kinds(&out),
        vec![TokenKind::If, TokenKind::Assign, TokenKind::IntegerLiteral, TokenKind::Eof]
    );
    assert_eq!(texts(&out), vec!["if", "=", "123", ""]);
    assert!(out.errors.is_empty());
}

#[test]
fn nested_block_comment_is_one_comment() {
    let out = tokenize("/* /* inner */ outer */");
    assert_eq!(kinds(&out), vec![TokenKind::Eof]);
    assert!(out.errors.is_empty());
}

#[test]
fn unterminated_block_comment_runs_to_end() {
    let out = tokenize("/* unterminated");
    assert_eq!(out.errors.len(), 1);
    assert_eq!(out.errors[0].kind, LexErrorKind::UnterminatedBlockComment);
    assert_eq!(out.errors[0].span, span(0, 15, 0, 0));
    assert_eq!(kinds(&out), vec![TokenKind::Eof]);
}

#[test]
fn range_between_integers() {
    let out = tokenize("1..3");
    assert_eq!(
        kinds(&out),
        vec![TokenKind::IntegerLiteral, TokenKind::Range, TokenKind::IntegerLiteral, TokenKind::Eof]
    );
    assert_eq!(texts(&out), vec!["1", "..", "3", ""]);
}

#[test]
fn logical_and_is_one_token() {
    let out = tokenize("a&&b");
    assert_eq!(
        kinds(&out),
        vec![TokenKind::Identifier, TokenKind::LogicalAnd, TokenKind::Identifier, TokenKind::Eof]
    );
    assert_eq!(texts(&out), vec!["a", "&&", "b", ""]);
}

#[test]
fn unterminated_string_ends_the_stream() {
    let out = tokenize("\"abc");
    assert_eq!(out.errors.len(), 1);
    assert_eq!(out.errors[0].kind, LexErrorKind::UnterminatedStringLiteral);
    assert_eq!(out.errors[0].span, span(0, 4, 0, 0));
    assert_eq!(kinds(&out), vec![TokenKind::Eof]);
}

#[test]
fn empty_input_gives_only_the_end_marker() {
    let out = tokenize("");
    assert_eq!(kinds(&out), vec![TokenKind::Eof]);
    assert_eq!(out.tokens[0].span, span(0, 0, 0, 0));
    assert!(out.errors.is_empty());
}

#[test]
fn whitespace_and_line_comments_are_skipped() {
    let out = tokenize(" \t\r\n// note /* not a block\nx // tail");
    assert_eq!(kinds(&out), vec![TokenKind::Identifier, TokenKind::Eof]);
    assert_eq!(out.tokens[0].span, span(27, 28, 2, 0));
    assert_eq!(out.tokens[1].span, span(36, 36, 2, 9));
}

#[test]
fn lines_and_columns_follow_newlines() {
    let out = tokenize("a\n  bc\n\nd");
    assert_eq!(out.tokens[0].span, span(0, 1, 0, 0));
    assert_eq!(out.tokens[1].span, span(4, 6, 1, 2));
    assert_eq!(out.tokens[2].span, span(8, 9, 3, 0));
}

#[test]
fn lexing_resumes_after_a_block_comment() {
    let out = tokenize("/* a /* b */ c */ x */");
    assert_eq!(
        kinds(&out),
        vec![TokenKind::Identifier, TokenKind::Star, TokenKind::Slash, TokenKind::Eof]
    );
    assert_eq!(texts(&out), vec!["x", "*", "/", ""]);
}

#[test]
fn every_keyword_is_recognised() {
    let src = "as break const continue else enum false fn for if impl in let loop match mut pub return struct true use while";
    let out = tokenize(src);
    assert_eq!(
        kinds(&out),
        vec![
            TokenKind::As,
            TokenKind::Break,
            TokenKind::Const,
            TokenKind::Continue,
            TokenKind::Else,
            TokenKind::Enum,
            TokenKind::False,
            TokenKind::Fn,
            TokenKind::For,
            TokenKind::If,
            TokenKind::Impl,
            TokenKind::In,
            TokenKind::Let,
            TokenKind::Loop,
            TokenKind::Match,
            TokenKind::Mut,
            TokenKind::Pub,
            TokenKind::Return,
            TokenKind::Struct,
            TokenKind::True,
            TokenKind::Use,
            TokenKind::While,
            TokenKind::Eof,
        ]
    );
}

#[test]
fn identifiers_with_underscores_and_digits() {
    let out = tokenize("_x fn_1 If whilex");
    assert_eq!(
        kinds(&out),
        vec![
            TokenKind::Identifier,
            TokenKind::Identifier,
            TokenKind::Identifier,
            TokenKind::Identifier,
            TokenKind::Eof
        ]
    );
    assert_eq!(texts(&out), vec!["_x", "fn_1", "If", "whilex", ""]);
}

#[test]
fn float_needs_a_digit_after_the_point() {
    let out = tokenize("3.14 1. 7.x");
    assert_eq!(
        kinds(&out),
        vec![
            TokenKind::FloatLiteral,
            TokenKind::IntegerLiteral,
            TokenKind::Dot,
            TokenKind::IntegerLiteral,
            TokenKind::Dot,
            TokenKind::Identifier,
            TokenKind::Eof
        ]
    );
    assert_eq!(texts(&out), vec!["3.14", "1", ".", "7", ".", "x", ""]);
}

#[test]
fn character_literals() {
    let out = tokenize("'A' '\\n' '\\''");
    assert_eq!(
        kinds(&out),
        vec![TokenKind::CharLiteral, TokenKind::CharLiteral, TokenKind::CharLiteral, TokenKind::Eof]
    );
    assert_eq!(texts(&out), vec!["'A'", "'\\n'", "'\\''", ""]);
    assert!(out.errors.is_empty());
}

#[test]
fn unterminated_character_literal_runs_to_end() {
    let out = tokenize("x 'ab' y");
    assert_eq!(out.errors.len(), 1);
    assert_eq!(out.errors[0].kind, LexErrorKind::UnterminatedCharacterLiteral);
    assert_eq!(out.errors[0].span, span(2, 8, 0, 2));
    assert_eq!(kinds(&out), vec![TokenKind::Identifier, TokenKind::Eof]);
}

#[test]
fn string_literals_with_escapes() {
    let out = tokenize("\"Hello, Rust!\" \"a\\\"b\" \"two\nlines\"");
    assert_eq!(
        kinds(&out),
        vec![
            TokenKind::StringLiteral,
            TokenKind::StringLiteral,
            TokenKind::StringLiteral,
            TokenKind::Eof
        ]
    );
    assert_eq!(texts(&out), vec!["\"Hello, Rust!\"", "\"a\\\"b\"", "\"two\nlines\"", ""]);
}

#[test]
fn unexpected_character_is_skipped_alone() {
    let out = tokenize("a $ b");
    assert_eq!(out.errors.len(), 1);
    assert_eq!(out.errors[0].kind, LexErrorKind::UnexpectedCharacter);
    assert_eq!(out.errors[0].span, span(2, 3, 0, 2));
    assert_eq!(kinds(&out), vec![TokenKind::Identifier, TokenKind::Identifier, TokenKind::Eof]);
    assert_eq!(texts(&out), vec!["a", "b", ""]);
}

#[test]
fn symbols_by_maximal_munch() {
    let out = tokenize("..= <<= >>= == != <= >= || << >> += -= *= /= %= ^= &= |= :: -> => = < > + - * / % ^ ! & | . , ; : ? # @ ( ) { } [ ]");
    assert!(out.errors.is_empty());
    assert_eq!(
        kinds(&out),
        vec![
            TokenKind::RangeInclusive,
            TokenKind::ShlAssign,
            TokenKind::ShrAssign,
            TokenKind::Eq,
            TokenKind::Ne,
            TokenKind::Le,
            TokenKind::Ge,
            TokenKind::LogicalOr,
            TokenKind::Shl,
            TokenKind::Shr,
            TokenKind::PlusAssign,
            TokenKind::MinusAssign,
            TokenKind::StarAssign,
            TokenKind::SlashAssign,
            TokenKind::PercentAssign,
            TokenKind::CaretAssign,
            TokenKind::AndAssign,
            TokenKind::OrAssign,
            TokenKind::PathSep,
            TokenKind::Arrow,
            TokenKind::FatArrow,
            TokenKind::Assign,
            TokenKind::Lt,
            TokenKind::Gt,
            TokenKind::Plus,
            TokenKind::Minus,
            TokenKind::Star,
            TokenKind::Slash,
            TokenKind::Percent,
            TokenKind::Caret,
            TokenKind::Not,
            TokenKind::BitAnd,
            TokenKind::BitOr,
            TokenKind::Dot,
            TokenKind::Comma,
            TokenKind::Semicolon,
            TokenKind::Colon,
            TokenKind::Question,
            TokenKind::Pound,
            TokenKind::At,
            TokenKind::LParen,
            TokenKind::RParen,
            TokenKind::LBrace,
            TokenKind::RBrace,
            TokenKind::LBracket,
            TokenKind::RBracket,
            TokenKind::Eof,
        ]
    );
}

#[test]
fn adjacent_symbols_split_by_longest_match() {
    let out = tokenize("a->b..=c&&&d");
    assert_eq!(texts(&out), vec!["a", "->", "b", "..=", "c", "&&", "&", "d", ""]);
}

#[test]
fn statement_from_the_sample_program() {
    let out = tokenize("let slice: &[i32] = &array[1..3];");
    assert_eq!(
        texts(&out),
        vec!["let", "slice", ":", "&", "[", "i32", "]", "=", "&", "array", "[", "1", "..", "3", "]", ";", ""]
    );
    assert!(out.errors.is_empty());
}

#[test]
fn pulled_items_match_the_whole_pass() {
    let src = "x = 'q /* y */";
    let mut lexer = Lexer::new(src);
    let mut pulled: Vec<Item> = Vec::new();
    loop {
        let item = lexer.next_item();
        let end = matches!(&item, Item::Token(t) if t.kind == TokenKind::Eof);
        pulled.push(item);
        if end {
            break;
        }
    }
    assert_eq!(pulled.len(), 4);
    assert!(matches!(&pulled[0], Item::Token(t) if t.kind == TokenKind::Identifier));
    assert!(matches!(&pulled[1], Item::Token(t) if t.kind == TokenKind::Assign));
    assert!(
        matches!(&pulled[2], Item::Error(e) if e.kind == LexErrorKind::UnterminatedCharacterLiteral)
    );
    assert!(matches!(&pulled[3], Item::Token(t) if t.kind == TokenKind::Eof));
    let again = lexer.next_item();
    assert!(matches!(&again, Item::Token(t) if t.kind == TokenKind::Eof && t.span.start == 14));
}

#[test]
fn cursor_peeks_and_advances() {
    let mut lexer = Lexer::new("a\nb");
    assert_eq!(lexer.peek(0), Some('a'));
    assert_eq!(lexer.peek(2), Some('b'));
    assert_eq!(lexer.peek(3), None);
    assert_eq!(lexer.advance(), Some('a'));
    assert_eq!(lexer.advance(), Some('\n'));
    assert_eq!((lexer.offset(), lexer.line(), lexer.column()), (2, 1, 0));
    assert_eq!(lexer.advance(), Some('b'));
    assert!(lexer.at_end());
    assert_eq!(lexer.advance(), None);
    assert_eq!((lexer.offset(), lexer.line(), lexer.column()), (3, 1, 1));
}

#[test]
fn non_ascii_text_counts_characters() {
    assert_eq!(chars_of("é/*注释*/x"), vec!['é', '/', '*', '注', '释', '*', '/', 'x']);
    let out = tokenize_chars(chars_of("é/*注释*/x"));
    assert_eq!(out.errors.len(), 1);
    assert_eq!(out.errors[0].span, span(0, 1, 0, 0));
    assert_eq!(out.tokens[0].span, span(7, 8, 0, 7));
}

//! The cursor and the token stream: the stream of an input is defined by spec
//! functions, and the pull-based `Lexer` and the whole-input `tokenize` are proved
//! to produce exactly it.
use vstd::prelude::*;
use vstd::string::*;
use crate::classify::{lemma_scan_advances, scan, scan_exec, Outcome};
use crate::token::{
    ErrorView, Item, ItemView, LexError, LexErrorKind, Span, Token, TokenKind, TokenView,
};

verus! {

/// The 0-based line and column of offset `i`: a newline before `i` starts a new
/// line, whose first character stands in column 0.
pub open spec fn position_at(s: Seq<char>, i: int) -> (nat, nat)
    decreases i,
{
    if i <= 0 {
        (0, 0)
    } else {
        let p = position_at(s, i - 1);
        if s[i - 1] == '\n' {
            ((p.0 + 1) as nat, 0)
        } else {
            (p.0, (p.1 + 1) as nat)
        }
    }
}

pub proof fn lemma_position_bound(s: Seq<char>, i: int)
    requires
        0 <= i,
    ensures
        position_at(s, i).0 + position_at(s, i).1 <= i,
    decreases i,
{
    if i > 0 {
        lemma_position_bound(s, i - 1);
    }
}

/// The token of kind `k` lexed from `s[start..end]`.
pub open spec fn token_at(s: Seq<char>, k: TokenKind, start: int, end: int) -> TokenView {
    TokenView {
        kind: k,
        text: s.subrange(start, end),
        start: start as nat,
        end: end as nat,
        line: position_at(s, start).0,
        column: position_at(s, start).1,
    }
}

/// The error of kind `k` reported for `s[start..end]`.
pub open spec fn error_at(s: Seq<char>, k: LexErrorKind, start: int, end: int) -> ErrorView {
    ErrorView {
        kind: k,
        start: start as nat,
        end: end as nat,
        line: position_at(s, start).0,
        column: position_at(s, start).1,
    }
}

pub open spec fn is_end_marker(it: ItemView) -> bool {
    it matches ItemView::Token(t) && t.kind == TokenKind::Eof
}

/// The next item of the stream from offset `i`, and the offset just after it.
/// Whitespace and comments are skipped; at the end of input the item is the end
/// marker, which consumes nothing.
pub open spec fn next_item_from(s: Seq<char>, i: int) -> (ItemView, int)
    decreases s.len() - i,
    via next_item_from_decreases
{
    if i < 0 || i >= s.len() {
        (ItemView::Token(token_at(s, TokenKind::Eof, i, i)), i)
    } else {
        let (o, e) = scan(s, i);
        match o {
            Outcome::Trivia => next_item_from(s, e),
            Outcome::Token(k) => (ItemView::Token(token_at(s, k, i, e)), e),
            Outcome::Error(k) => (ItemView::Error(error_at(s, k, i, e)), e),
        }
    }
}

#[via_fn]
proof fn next_item_from_decreases(s: Seq<char>, i: int) {
    if 0 <= i < s.len() {
        lemma_scan_advances(s, i);
    }
}

/// An item other than the end marker consumes at least one character; none goes
/// past the end of input.
pub proof fn lemma_next_item_advances(s: Seq<char>, i: int)
    requires
        0 <= i <= s.len(),
    ensures
        i <= next_item_from(s, i).1 <= s.len(),
        !is_end_marker(next_item_from(s, i).0) ==> i < next_item_from(s, i).1,
        i == s.len() ==> is_end_marker(next_item_from(s, i).0),
        next_item_from(s, i).0 matches ItemView::Token(t) ==> i <= t.start <= t.end
            == next_item_from(s, i).1 && t.text == s.subrange(t.start as int, t.end as int),
        next_item_from(s, i).0 matches ItemView::Error(e) ==> i <= e.start <= e.end
            == next_item_from(s, i).1,
    decreases s.len() - i,
{
    if i < s.len() {
        lemma_scan_advances(s, i);
        let (o, e) = scan(s, i);
        if o is Trivia {
            lemma_next_item_advances(s, e);
        }
    }
}

/// The tokens of `s` from offset `i` on, ending with the end marker.
pub open spec fn tokens_from(s: Seq<char>, i: int) -> Seq<TokenView>
    decreases s.len() - i,
    via tokens_from_decreases
{
    let (it, j) = next_item_from(s, i);
    match it {
        ItemView::Token(t) => if t.kind == TokenKind::Eof || i < 0 || i >= s.len() {
            seq![t]
        } else {
            seq![t] + tokens_from(s, j)
        },
        ItemView::Error(_) => if i < 0 || i >= s.len() {
            seq![]
        } else {
            tokens_from(s, j)
        },
    }
}

#[via_fn]
proof fn tokens_from_decreases(s: Seq<char>, i: int) {
    if 0 <= i < s.len() {
        lemma_next_item_advances(s, i);
    }
}

/// The lexical errors of `s` from offset `i` on, in order.
pub open spec fn errors_from(s: Seq<char>, i: int) -> Seq<ErrorView>
    decreases s.len() - i,
    via errors_from_decreases
{
    let (it, j) = next_item_from(s, i);
    match it {
        ItemView::Token(t) => if t.kind == TokenKind::Eof || i < 0 || i >= s.len() {
            seq![]
        } else {
            errors_from(s, j)
        },
        ItemView::Error(e) => if i < 0 || i >= s.len() {
            seq![]
        } else {
            seq![e] + errors_from(s, j)
        },
    }
}

#[via_fn]
proof fn errors_from_decreases(s: Seq<char>, i: int) {
    if 0 <= i < s.len() {
        lemma_next_item_advances(s, i);
    }
}

/// The tokens of a whole input, ending with the end marker.
pub open spec fn tokens_of(s: Seq<char>) -> Seq<TokenView> {
    tokens_from(s, 0)
}

/// The lexical errors of a whole input, in order.
pub open spec fn errors_of(s: Seq<char>) -> Seq<ErrorView> {
    errors_from(s, 0)
}

/// A lexer over one input: a cursor (offset, line, column) that moves forward
/// only, pulled one item at a time.
pub struct Lexer {
    src: Vec<char>,
    pos: usize,
    line: usize,
    column: usize,
}

/// Copies `s[start..end]`.
fn copy_range(s: &Vec<char>, start: usize, end: usize) -> (r: Vec<char>)
    requires
        start <= end <= s@.len(),
    ensures
        r@ == s@.subrange(start as int, end as int),
{
    let mut r: Vec<char> = Vec::new();
    let mut k: usize = start;
    while k < end
        invariant
            start <= k <= end <= s@.len(),
            r@ == s@.subrange(start as int, k as int),
        decreases end - k,
    {
        r.push(s[k]);
        k += 1;
        assert(r@ =~= s@.subrange(start as int, k as int));
    }
    r
}

/// The characters of `s`, in order.
pub fn chars_of(s: &str) -> (r: Vec<char>)
    ensures
        r@ == s@,
{
    let n = s.unicode_len();
    let mut r: Vec<char> = Vec::new();
    let mut k: usize = 0;
    while k < n
        invariant
            n == s@.len(),
            k <= n,
            r@ == s@.subrange(0, k as int),
        decreases n - k,
    {
        r.push(s.get_char(k));
        k += 1;
        assert(r@ =~= s@.subrange(0, k as int));
    }
    assert(r@ =~= s@);
    r
}

impl Lexer {
    /// The input being lexed.
    pub closed spec fn source(&self) -> Seq<char> {
        self.src@
    }

    /// The cursor's offset into the input.
    pub closed spec fn pos(&self) -> int {
        self.pos as int
    }

    /// The offset is within the input, and line and column are those of the offset.
    pub closed spec fn wf(&self) -> bool {
        &&& self.pos <= self.src@.len()
        &&& self.line == position_at(self.src@, self.pos as int).0
        &&& self.column == position_at(self.src@, self.pos as int).1
    }

    /// A lexer at the start of `src`.
    pub fn new(src: &str) -> (r: Lexer)
        ensures
            r.wf(),
            r.source() == src@,
            r.pos() == 0,
    {
        Lexer::from_chars(chars_of(src))
    }

    /// A lexer at the start of the characters `src`.
    pub fn from_chars(src: Vec<char>) -> (r: Lexer)
        ensures
            r.wf(),
            r.source() == src@,
            r.pos() == 0,
    {
        Lexer { src, pos: 0, line: 0, column: 0 }
    }

    /// The cursor's offset.
    pub fn offset(&self) -> (r: usize)
        ensures
            r == self.pos(),
    {
        self.pos
    }

    /// The cursor's line.
    pub fn line(&self) -> (r: usize)
        requires
            self.wf(),
        ensures
            r == position_at(self.source(), self.pos()).0,
    {
        self.line
    }

    /// The cursor's column.
    pub fn column(&self) -> (r: usize)
        requires
            self.wf(),
        ensures
            r == position_at(self.source(), self.pos()).1,
    {
        self.column
    }

    /// Whether the cursor has reached the end of input.
    pub fn at_end(&self) -> (r: bool)
        ensures
            r == (self.pos() >= self.source().len()),
    {
        self.pos >= self.src.len()
    }

    /// The character `ahead` places past the cursor, if the input reaches that far.
    pub fn peek(&self, ahead: usize) -> (r: Option<char>)
        requires
            self.wf(),
        ensures
            self.pos() + ahead < self.source().len() ==> r == Some(
                self.source()[self.pos() + ahead],
            ),
            self.pos() + ahead >= self.source().len() ==> r is None,
    {
        if ahead < self.src.len() - self.pos {
            Some(self.src[self.pos + ahead])
        } else {
            None
        }
    }

    /// Consumes the character at the cursor and returns it, keeping line and column
    /// in step; at the end of input returns `None` and stays.
    pub fn advance(&mut self) -> (r: Option<char>)
        requires
            old(self).wf(),
        ensures
            final(self).wf(),
            final(self).source() == old(self).source(),
            old(self).pos() < old(self).source().len() ==> r == Some(
                old(self).source()[old(self).pos()],
            ) && final(self).pos() == old(self).pos() + 1,
            old(self).pos() >= old(self).source().len() ==> r is None && final(self).pos()
                == old(self).pos(),
    {
        if self.pos >= self.src.len() {
            return None;
        }
        let c = self.src[self.pos];
        proof {
            lemma_position_bound(self.src@, self.pos as int);
        }
        if c == '\n' {
            self.line = self.line + 1;
            self.column = 0;
        } else {
            self.column = self.column + 1;
        }
        self.pos = self.pos + 1;
        Some(c)
    }

    /// Advances the cursor to `target`.
    fn advance_to(&mut self, target: usize)
        requires
            old(self).wf(),
            old(self).pos() <= target <= old(self).source().len(),
        ensures
            final(self).wf(),
            final(self).source() == old(self).source(),
            final(self).pos() == target,
    {
        while self.pos < target
            invariant
                self.wf(),
                self.source() == old(self).source(),
                self.pos() <= target <= self.source().len(),
            decreases target - self.pos,
        {
            self.advance();
        }
    }

    /// Lexes the next item from the cursor: skips whitespace and comments, then
    /// returns one token or one error and leaves the cursor just after its text.
    /// At the end of input returns the end marker, as often as it is asked.
    pub fn next_item(&mut self) -> (r: Item)
        requires
            old(self).wf(),
        ensures
            final(self).wf(),
            final(self).source() == old(self).source(),
            (r@, final(self).pos()) == next_item_from(old(self).source(), old(self).pos()),
    {
        loop
            invariant
                self.wf(),
                self.source() == old(self).source(),
                next_item_from(self.source(), self.pos()) == next_item_from(
                    old(self).source(),
                    old(self).pos(),
                ),
            decreases self.source().len() - self.pos(),
        {
            let start = self.pos;
            if start >= self.src.len() {
                let text: Vec<char> = Vec::new();
                assert(text@ =~= self.src@.subrange(start as int, start as int));
                let span = Span { start, end: start, line: self.line, column: self.column };
                return Item::Token(Token { kind: TokenKind::Eof, text, span });
            }
            let (o, e) = scan_exec(&self.src, start);
            proof {
                lemma_scan_advances(self.src@, start as int);
            }
            let span = Span { start, end: e, line: self.line, column: self.column };
            self.advance_to(e);
            match o {
                Outcome::Trivia => {},
                Outcome::Token(kind) => {
                    let text = copy_range(&self.src, start, e);
                    return Item::Token(Token { kind, text, span });
                },
                Outcome::Error(kind) => {
                    return Item::Error(LexError { kind, span });
                },
            }
        }
    }
}

/// The whole result of lexing one input: the tokens, ending with the end marker,
/// and the errors reported on the way, each in input order.
pub struct LexOutput {
    pub tokens: Vec<Token>,
    pub errors: Vec<LexError>,
}

pub open spec fn token_views(v: Seq<Token>) -> Seq<TokenView> {
    v.map_values(|t: Token| t@)
}

pub open spec fn error_views(v: Seq<LexError>) -> Seq<ErrorView> {
    v.map_values(|e: LexError| e@)
}

impl LexOutput {
    /// This output is the one that lexing `s` yields.
    pub open spec fn lexes(&self, s: Seq<char>) -> bool {
        &&& token_views(self.tokens@) == tokens_of(s)
        &&& error_views(self.errors@) == errors_of(s)
    }
}

/// Lexes `src` whole, from offset 0 to the end marker.
pub fn tokenize(src: &str) -> (out: LexOutput)
    ensures
        out.lexes(src@),
{
    tokenize_chars(chars_of(src))
}

/// Lexes the characters `src` whole, from offset 0 to the end marker.
pub fn tokenize_chars(src: Vec<char>) -> (out: LexOutput)
    ensures
        out.lexes(src@),
{
    let ghost s = src@;
    let mut lexer = Lexer::from_chars(src);
    let mut tokens: Vec<Token> = Vec::new();
    let mut errors: Vec<LexError> = Vec::new();
    loop
        invariant_except_break
            tokens_of(s) == token_views(tokens@) + tokens_from(s, lexer.pos()),
            errors_of(s) == error_views(errors@) + errors_from(s, lexer.pos()),
        invariant
            lexer.wf(),
            lexer.source() == s,
            0 <= lexer.pos() <= s.len(),
        ensures
            tokens_of(s) == token_views(tokens@),
            errors_of(s) == error_views(errors@),
        decreases s.len() - lexer.pos(),
    {
        let ghost p = lexer.pos();
        let item = lexer.next_item();
        proof {
            lemma_next_item_advances(s, p);
        }
        match item {
            Item::Token(t) => {
                let end = t.kind == TokenKind::Eof;
                let ghost before = tokens@;
                let ghost tv = t@;
                tokens.push(t);
                proof {
                    let rest = tokens_from(s, lexer.pos());
                    assert(token_views(tokens@) =~= token_views(before).push(tv));
                    if end {
                        assert(tokens_from(s, p) == seq![tv]);
                        assert(token_views(before) + seq![tv] =~= token_views(before).push(tv));
                    } else {
                        assert(tokens_from(s, p) == seq![tv] + rest);
                        assert(token_views(before) + (seq![tv] + rest) =~= token_views(
                            before,
                        ).push(tv) + rest);
                    }
                }
                if end {
                    proof {
                        assert(errors_from(s, p) == Seq::<ErrorView>::empty());
                        assert(error_views(errors@) + errors_from(s, p) =~= error_views(errors@));
                        assert(tokens_of(s) =~= token_views(tokens@));
                    }
                    break;
                }
            },
            Item::Error(e) => {
                let ghost before = errors@;
                let ghost ev = e@;
                errors.push(e);
                proof {
                    let rest = errors_from(s, lexer.pos());
                    assert(error_views(errors@) =~= error_views(before).push(ev));
                    assert(errors_from(s, p) == seq![ev] + rest);
                    assert(error_views(before) + (seq![ev] + rest) =~= error_views(before).push(ev)
                        + rest);
                }
            },
        }
    }
    LexOutput { tokens, errors }
}

/// Lexing is a function of the input alone: any two passes over the same input
/// yield identical token sequences and identical error sequences.
pub proof fn lemma_relex_identical(s: Seq<char>, a: LexOutput, b: LexOutput)
    requires
        a.lexes(s),
        b.lexes(s),
    ensures
        token_views(a.tokens@) == token_views(b.tokens@),
        error_views(a.errors@) == error_views(b.errors@),
{
}

/// The token sequence of every input ends with the end marker, and holds it
/// nowhere else.
pub proof fn lemma_tokens_end_with_marker(s: Seq<char>, i: int)
    requires
        0 <= i <= s.len(),
    ensures
        tokens_from(s, i).len() > 0,
        tokens_from(s, i).last().kind == TokenKind::Eof,
        forall|k: int|
            0 <= k < tokens_from(s, i).len() - 1 ==> tokens_from(s, i)[k].kind != TokenKind::Eof,
    decreases s.len() - i,
{
    lemma_next_item_advances(s, i);
    let (it, j) = next_item_from(s, i);
    if i < s.len() && !is_end_marker(it) {
        lemma_tokens_end_with_marker(s, j);
        let rest = tokens_from(s, j);
        if let ItemView::Token(t) = it {
            assert(tokens_from(s, i) == seq![t] + rest);
            assert forall|k: int| 0 <= k < tokens_from(s, i).len() - 1 implies tokens_from(
                s,
                i,
            )[k].kind != TokenKind::Eof by {
                if k > 0 {
                    assert(tokens_from(s, i)[k] == rest[k - 1]);
                }
            }
        }
    }
}

/// Every token's text is exactly the input between its start and end offsets, and
/// the tokens come in input order without overlapping.
pub proof fn lemma_tokens_in_order(s: Seq<char>, i: int)
    requires
        0 <= i <= s.len(),
    ensures
        forall|k: int|
            0 <= k < tokens_from(s, i).len() ==> {
                let t = #[trigger] tokens_from(s, i)[k];
                &&& i <= t.start <= t.end <= s.len()
                &&& t.text == s.subrange(t.start as int, t.end as int)
            },
        forall|k: int|
            0 <= k < tokens_from(s, i).len() - 1 ==> #[trigger] tokens_from(s, i)[k].end
                <= tokens_from(s, i)[k + 1].start,
    decreases s.len() - i,
{
    lemma_next_item_advances(s, i);
    let (it, j) = next_item_from(s, i);
    if i < s.len() && !is_end_marker(it) {
        lemma_tokens_in_order(s, j);
        lemma_next_item_advances(s, j);
        let rest = tokens_from(s, j);
        lemma_tokens_end_with_marker(s, j);
        if let ItemView::Token(t) = it {
            let all = tokens_from(s, i);
            assert(all == seq![t] + rest);
            assert forall|k: int| 0 <= k < all.len() implies {
                let u = #[trigger] all[k];
                &&& i <= u.start <= u.end <= s.len()
                &&& u.text == s.subrange(u.start as int, u.end as int)
            } by {
                if k > 0 {
                    assert(all[k] == rest[k - 1]);
                }
            }
            assert forall|k: int| 0 <= k < all.len() - 1 implies #[trigger] all[k].end <= all[k
                + 1].start by {
                if k > 0 {
                    assert(all[k] == rest[k - 1]);
                    assert(all[k + 1] == rest[k]);
                } else {
                    assert(all[1] == rest[0]);
                }
            }
        }
    }
}

} // verus!

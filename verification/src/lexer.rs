//! The lexer: from the text of a line to its tokens and their spans.
//!
//! Offsets count characters from zero. The span of a token starts at its
//! first character and ends behind its last one.

use crate::error::{Error, ErrorView};
use crate::integer::{decimal_value, is_decimal_digit, parse_decimal};
use crate::parser::is_line;
use crate::position::{span_values, PosCtx, Position};
use crate::token::{token_views, Token, TokenView};
use vstd::prelude::*;

verus! {

/// Whether `c` is alphanumeric by the Unicode tables of `char`.
pub uninterp spec fn is_alphanumeric(c: char) -> bool;

/// Asks `char::is_alphanumeric`. Claimed: the answer depends on the
/// character alone. Nothing is claimed of which characters are
/// alphanumeric; the lexer asks of characters outside ASCII only.
#[verifier::external_body]
fn alphanumeric(c: char) -> (r: bool)
    ensures
        r == is_alphanumeric(c),
{
    c.is_alphanumeric()
}

/// Whether `c` is skipped between tokens: a space or a tab.
pub open spec fn is_blank(c: char) -> bool {
    c == ' ' || c == '\t'
}

/// Whether `c` can start a name: an ASCII letter or `_`.
pub open spec fn starts_identifier(c: char) -> bool {
    ('a' <= c <= 'z') || ('A' <= c <= 'Z') || c == '_'
}

/// Whether `c` is an ASCII character.
pub open spec fn is_ascii_char(c: char) -> bool {
    c < '\u{80}'
}

/// Whether `c` is an ASCII letter or an ASCII digit.
pub open spec fn is_ascii_alphanumeric(c: char) -> bool {
    ('a' <= c <= 'z') || ('A' <= c <= 'Z') || is_decimal_digit(c)
}

/// Whether the character `c` can stand inside a name, where `alphanumeric`
/// says whether `c` is alphanumeric by the Unicode tables.
///
/// Of an ASCII character the tables are not asked: it can stand inside a
/// name if it is a letter, a digit or `_`. Any other character can if the
/// tables have it alphanumeric.
pub open spec fn goes_on(c: char, alphanumeric: bool) -> bool {
    if is_ascii_char(c) {
        is_ascii_alphanumeric(c) || c == '_'
    } else {
        alphanumeric
    }
}

/// Whether `c` can stand inside a name.
pub open spec fn continues_identifier(c: char) -> bool {
    goes_on(c, is_alphanumeric(c))
}

/// Whether `c` is an ASCII character.
pub fn is_ascii(c: char) -> (r: bool)
    ensures
        r == is_ascii_char(c),
{
    c < '\u{80}'
}

/// Whether a name goes on with `c`, given whether `c` is alphanumeric by
/// the Unicode tables.
pub fn identifier_goes_on(c: char, alphanumeric: bool) -> (r: bool)
    ensures
        r == goes_on(c, alphanumeric),
{
    if is_ascii(c) {
        starts_name(c) || is_digit(c)
    } else {
        alphanumeric
    }
}

/// The number of characters from the offset `k` to the end of `text`.
pub open spec fn left(text: Seq<char>, k: nat) -> nat {
    if k <= text.len() {
        (text.len() - k) as nat
    } else {
        0
    }
}

/// The character at the offset `k`, or NUL behind the end of `text`.
pub open spec fn char_or_nul(text: Seq<char>, k: nat) -> char {
    if k < text.len() {
        text[k as int]
    } else {
        '\0'
    }
}

/// The length of the longest run of characters from `k` on that can stand
/// inside a name.
pub open spec fn identifier_run(text: Seq<char>, k: nat) -> nat
    decreases left(text, k),
{
    if k < text.len() && continues_identifier(text[k as int]) {
        1 + identifier_run(text, k + 1)
    } else {
        0
    }
}

/// A run of a number: its length, and whether a `.` is in it or before it.
pub struct NumberRun {
    pub len: nat,
    pub dotted: bool,
}

/// The longest run from `k` on of digits and of one `.` at most; `dotted`
/// says that the `.` was met before `k`, and the result whether it was met at
/// all. A second `.` ends the run.
pub open spec fn number_run(text: Seq<char>, k: nat, dotted: bool) -> NumberRun
    decreases left(text, k),
{
    if k < text.len() && is_decimal_digit(text[k as int]) {
        let rest = number_run(text, k + 1, dotted);
        NumberRun { len: 1 + rest.len, dotted: rest.dotted }
    } else if k < text.len() && text[k as int] == '.' && !dotted {
        let rest = number_run(text, k + 1, true);
        NumberRun { len: 1 + rest.len, dotted: rest.dotted }
    } else {
        NumberRun { len: 0, dotted }
    }
}

/// A token that was read: its model, and the number of its characters
/// behind the first.
pub struct Scanned {
    pub token: TokenView,
    pub extra: nat,
}

/// The token `token` of one character.
pub open spec fn single(token: TokenView) -> Option<Scanned> {
    Some(Scanned { token, extra: 0 })
}

/// `double` if the character `next` is `second`, else `single`.
pub open spec fn one_or_two(next: char, second: char, double: TokenView, single: Option<Scanned>)
    -> Option<Scanned> {
    if next == second {
        Some(Scanned { token: double, extra: 1 })
    } else {
        single
    }
}

/// The token that starts at the offset `k` of `text`, where a character
/// stands that is not blank; none where that character starts no token.
///
/// A name is an ASCII letter or `_` and the longest run behind it of
/// characters that can stand inside a name: ASCII letters, ASCII digits, `_`
/// and what is alphanumeric outside ASCII. A number is a digit and the
/// longest run behind it of digits and one `.` at most: an integer without
/// the `.`, a float with it. `**`, `==`, `!=`, `<=` and `>=` are told from
/// `*`, `=`, `<` and `>` by the character that follows; `!` alone is no
/// token.
pub open spec fn scan(text: Seq<char>, k: nat) -> Option<Scanned> {
    let c = text[k as int];
    let next = char_or_nul(text, k + 1);
    if starts_identifier(c) {
        let extra = identifier_run(text, k + 1);
        Some(
            Scanned {
                token: TokenView::Ident { value: text.subrange(k as int, k + 1 + extra as int) },
                extra,
            },
        )
    } else if is_decimal_digit(c) {
        let run = number_run(text, k + 1, false);
        let digits = text.subrange(k as int, k + 1 + run.len as int);
        Some(
            Scanned {
                token: if run.dotted {
                    TokenView::Float { value: digits }
                } else {
                    TokenView::Int { value: decimal_value(digits) }
                },
                extra: run.len,
            },
        )
    } else if c == '+' {
        single(TokenView::Plus)
    } else if c == '-' {
        single(TokenView::Minus)
    } else if c == '*' {
        one_or_two(next, '*', TokenView::Pow, single(TokenView::Mul))
    } else if c == '/' {
        single(TokenView::Div)
    } else if c == '=' {
        one_or_two(next, '=', TokenView::Eq, single(TokenView::Assign))
    } else if c == '(' {
        single(TokenView::Lpar)
    } else if c == ')' {
        single(TokenView::Rpar)
    } else if c == '>' {
        one_or_two(next, '=', TokenView::GreaterEq, single(TokenView::Greater))
    } else if c == '<' {
        one_or_two(next, '=', TokenView::LessEq, single(TokenView::Less))
    } else if c == '!' {
        one_or_two(next, '=', TokenView::NotEq, None)
    } else {
        None
    }
}

/// The position at the offset `k` of the text of `origin`, reached from
/// `origin` character by character.
pub open spec fn position_at(origin: Position, k: nat) -> Position
    decreases k,
{
    if k <= origin.idx {
        origin
    } else {
        position_at(origin, (k - 1) as nat).advanced(origin.text@[k - 1])
    }
}

/// The span from the offset `from` to the offset `to`.
pub open spec fn span(origin: Position, from: nat, to: nat) -> PosCtx {
    PosCtx {
        pos_start: Box::new(position_at(origin, from)),
        pos_end: Box::new(position_at(origin, to)),
    }
}

/// The tokens of a line and their spans, one for one.
pub struct Lexed {
    pub tokens: Seq<TokenView>,
    pub spans: Seq<PosCtx>,
}

/// `rest` behind the tokens `tokens` with the spans `spans`.
pub open spec fn joined(tokens: Seq<TokenView>, spans: Seq<PosCtx>, rest: Result<Lexed, ErrorView>)
    -> Result<Lexed, ErrorView> {
    match rest {
        Ok(lexed) => Ok(Lexed { tokens: tokens + lexed.tokens, spans: spans + lexed.spans }),
        Err(error) => Err(error),
    }
}

/// The tokens of the text of `origin` from the offset `k` on, ended by
/// `EndOfFile`; or the first character that starts no token, with the span
/// of that one character. Blanks are skipped.
pub open spec fn lex(origin: Position, k: nat) -> Result<Lexed, ErrorView>
    decreases left(origin.text@, k),
{
    let text = origin.text@;
    if k >= text.len() {
        Ok(Lexed { tokens: seq![TokenView::EndOfFile], spans: seq![span(origin, k, k)] })
    } else if is_blank(text[k as int]) {
        lex(origin, k + 1)
    } else {
        match scan(text, k) {
            Some(scanned) => joined(
                seq![scanned.token],
                seq![span(origin, k, k + 1 + scanned.extra)],
                lex(origin, k + 1 + scanned.extra),
            ),
            None => Err(
                ErrorView::IllegalChar {
                    ctx: span(origin, k, k + 1),
                    detail: "unknown character"@,
                },
            ),
        }
    }
}

/// The model of what the lexer returns.
pub open spec fn lexed_view(r: Result<(Vec<Box<Token>>, Vec<Box<PosCtx>>), Box<Error>>) -> Result<
    Lexed,
    ErrorView,
> {
    match r {
        Ok((tokens, posctxs)) => Ok(
            Lexed { tokens: token_views(tokens@), spans: span_values(posctxs@) },
        ),
        Err(error) => Err(error@),
    }
}

/// A position between `origin` and the end of the text keeps the text of
/// `origin`, stands at its offset, and has passed no more columns and rows
/// than characters.
pub proof fn lemma_position_at(origin: Position, k: nat)
    requires
        origin.wf(),
        origin.idx <= k < origin.len,
        origin.col <= origin.idx,
        origin.row <= origin.idx,
    ensures
        position_at(origin, k).idx == k,
        position_at(origin, k).text == origin.text,
        position_at(origin, k).fd == origin.fd,
        position_at(origin, k).len == origin.len,
        position_at(origin, k).col <= k,
        position_at(origin, k).row <= k,
    decreases k,
{
    if k > origin.idx {
        lemma_position_at(origin, (k - 1) as nat);
    }
}

/// The way from `origin` to `to` leads over every offset between them.
pub proof fn lemma_position_at_via(origin: Position, via: nat, to: nat)
    requires
        origin.wf(),
        origin.idx <= via <= to < origin.len,
        origin.col <= origin.idx,
        origin.row <= origin.idx,
    ensures
        position_at(position_at(origin, via), to) == position_at(origin, to),
    decreases to,
{
    lemma_position_at(origin, via);
    if to > via {
        lemma_position_at_via(origin, via, (to - 1) as nat);
    }
}

/// The tokens of a text that has no character that starts no token are a
/// line: as many spans as tokens, and `EndOfFile` last.
pub proof fn lemma_lex_is_line(origin: Position, k: nat)
    ensures
        lex(origin, k) matches Ok(lexed) ==> is_line(lexed.tokens, lexed.spans),
    decreases left(origin.text@, k),
{
    let text = origin.text@;
    if k >= text.len() {
    } else if is_blank(text[k as int]) {
        lemma_lex_is_line(origin, k + 1);
    } else {
        match scan(text, k) {
            Some(scanned) => {
                lemma_lex_is_line(origin, k + 1 + scanned.extra);
            },
            None => {},
        }
    }
}

/// A run of a name ends within the text.
pub proof fn lemma_identifier_run_within(text: Seq<char>, k: nat)
    requires
        k <= text.len(),
    ensures
        k + identifier_run(text, k) <= text.len(),
    decreases left(text, k),
{
    if k < text.len() && continues_identifier(text[k as int]) {
        lemma_identifier_run_within(text, k + 1);
    }
}

/// A run of a number ends within the text.
pub proof fn lemma_number_run_within(text: Seq<char>, k: nat, dotted: bool)
    requires
        k <= text.len(),
    ensures
        k + number_run(text, k, dotted).len <= text.len(),
    decreases left(text, k),
{
    if k < text.len() && is_decimal_digit(text[k as int]) {
        lemma_number_run_within(text, k + 1, dotted);
    } else if k < text.len() && text[k as int] == '.' && !dotted {
        lemma_number_run_within(text, k + 1, true);
    }
}

/// A token ends within the text.
pub proof fn lemma_scan_within(text: Seq<char>, k: nat)
    requires
        k < text.len(),
    ensures
        scan(text, k) matches Some(scanned) ==> k + 1 + scanned.extra <= text.len(),
{
    lemma_identifier_run_within(text, k + 1);
    lemma_number_run_within(text, k + 1, false);
}

/// Whether a span lies within its text: both ends are well formed and stand
/// at a character or just behind the last one, and the start is not behind
/// the end.
pub open spec fn is_within(ctx: PosCtx) -> bool {
    &&& ctx.wf()
    &&& ctx.pos_start.idx <= ctx.pos_end.idx
    &&& ctx.pos_end.idx < ctx.pos_end.len
    &&& ctx.pos_start.text == ctx.pos_end.text
}

/// The span of every token lies within the text, and so does the span of
/// the character that starts no token.
pub proof fn lemma_lex_spans_are_within(origin: Position, k: nat)
    requires
        origin.wf(),
        origin.idx <= k <= origin.text@.len(),
        origin.col <= origin.idx,
        origin.row <= origin.idx,
    ensures
        lex(origin, k) matches Ok(lexed) ==> forall|i: int|
            0 <= i < lexed.spans.len() ==> is_within(#[trigger] lexed.spans[i]),
        lex(origin, k) matches Err(error) ==> is_within(error.ctx()),
    decreases left(origin.text@, k),
{
    let text = origin.text@;
    lemma_position_at(origin, k);
    if k >= text.len() {
    } else if is_blank(text[k as int]) {
        lemma_lex_spans_are_within(origin, k + 1);
    } else {
        lemma_position_at(origin, k + 1);
        match scan(text, k) {
            Some(scanned) => {
                let to = k + 1 + scanned.extra;
                lemma_scan_within(text, k);
                lemma_position_at(origin, to);
                lemma_lex_spans_are_within(origin, to);
                match lex(origin, to) {
                    Ok(rest) => {
                        let all = seq![span(origin, k, to)] + rest.spans;
                        assert forall|i: int| 0 <= i < all.len() implies is_within(
                            #[trigger] all[i],
                        ) by {
                            if i > 0 {
                                assert(all[i] == rest.spans[i - 1]);
                            }
                        }
                    },
                    Err(_) => {},
                }
            },
            None => {},
        }
    }
}

/// A run of blanks changes nothing of what the lexer makes of the text
/// behind it.
pub proof fn theorem_blanks_are_skipped(origin: Position, k: nat, n: nat)
    requires
        k + n <= origin.text@.len(),
        forall|i: int| k <= i < k + n ==> is_blank(#[trigger] origin.text@[i]),
    ensures
        lex(origin, k) == lex(origin, k + n),
    decreases n,
{
    if n > 0 {
        assert(is_blank(origin.text@[k as int]));
        theorem_blanks_are_skipped(origin, k + 1, (n - 1) as nat);
    }
}

/// The lexer fails with `IllegalChar` and nothing else.
pub proof fn lemma_lex_fails_with_illegal_char(origin: Position, k: nat)
    ensures
        lex(origin, k) matches Err(error) ==> error is IllegalChar,
    decreases left(origin.text@, k),
{
    let text = origin.text@;
    if k >= text.len() {
    } else if is_blank(text[k as int]) {
        lemma_lex_fails_with_illegal_char(origin, k + 1);
    } else {
        match scan(text, k) {
            Some(scanned) => {
                lemma_lex_fails_with_illegal_char(origin, k + 1 + scanned.extra);
            },
            None => {},
        }
    }
}

/// A lexer: a position in a text, and the character at that position, NUL
/// behind the end.
pub struct Lexer {
    pub pos: Box<Position>,
    pub cur_char: char,
}

impl Lexer {
    /// The position lies within its text or just behind it, the character is
    /// the one at the position, and no more columns and rows were passed than
    /// characters.
    pub open spec fn wf(&self) -> bool {
        &&& self.pos.wf()
        &&& self.pos.idx < self.pos.len
        &&& self.pos.col <= self.pos.idx
        &&& self.pos.row <= self.pos.idx
        &&& self.cur_char == char_or_nul(self.pos.text@, self.pos.idx as nat)
    }

    /// The lexer has moved from `before` to the offset `to` of the same text.
    pub open spec fn moved(&self, before: Lexer, to: nat) -> bool {
        &&& self.wf()
        &&& *self.pos == position_at(*before.pos, to)
        &&& self.pos.idx == to
        &&& self.pos.text == before.pos.text
    }

    /// A lexer at the start of `text`, which goes by the name `fd`.
    pub fn new(fd: String, text: String) -> (r: Box<Self>)
        requires
            text@.len() < usize::MAX,
        ensures
            r.wf(),
            *r.pos == (Position {
                idx: 0,
                col: 0,
                row: 0,
                fd,
                text,
                len: (text@.len() + 1) as usize,
            }),
    {
        let count = text.as_str().unicode_len();
        let cur_char = if count > 0 {
            text.as_str().get_char(0)
        } else {
            '\0'
        };
        Box::new(
            Lexer {
                pos: Box::new(Position { idx: 0, col: 0, row: 0, fd, text, len: count + 1 }),
                cur_char,
            },
        )
    }

    /// Whether the lexer stands behind the last character.
    fn at_end(&self) -> (r: bool)
        requires
            self.wf(),
        ensures
            r == (self.pos.idx >= self.pos.text@.len()),
    {
        self.pos.idx >= self.pos.len - 1
    }

    /// Moves past `step` characters.
    pub fn advance(&mut self, step: u128)
        requires
            old(self).wf(),
            old(self).pos.idx + step < old(self).pos.len,
        ensures
            final(self).moved(*old(self), (old(self).pos.idx + step) as nat),
    {
        let ghost target = self.pos.idx + step;
        let mut step = step;
        proof {
            lemma_position_at(*self.pos, self.pos.idx as nat);
        }
        while step > 0
            invariant
                old(self).wf(),
                self.pos.idx + step == target,
                target < old(self).pos.len,
                self.moved(*old(self), self.pos.idx as nat),
            decreases step,
        {
            proof {
                lemma_position_at(*old(self).pos, self.pos.idx as nat);
                lemma_position_at(*old(self).pos, (self.pos.idx + 1) as nat);
            }
            self.pos.advance(self.cur_char);
            if self.pos.idx < self.pos.len - 1 {
                self.cur_char = self.pos.text.as_str().get_char(self.pos.idx);
            } else {
                self.cur_char = '\0';
            }
            step -= 1;
        }
    }

    /// The character behind the one that the lexer stands at, or NUL where
    /// there is none.
    pub fn peek(&self) -> (r: char)
        requires
            self.wf(),
        ensures
            r == char_or_nul(self.pos.text@, (self.pos.idx + 1) as nat),
    {
        if self.pos.idx + 1 < self.pos.len - 1 {
            self.pos.text.as_str().get_char(self.pos.idx + 1)
        } else {
            '\0'
        }
    }

    /// What reading one token leaves of the lexer `before`: the token and
    /// its span `r`, and the lexer `self` behind the token.
    pub open spec fn scanned(&self, before: Lexer, r: (Token, PosCtx)) -> bool {
        let k = before.pos.idx as nat;
        &&& self.pos.idx > k
        &&& self.moved(before, self.pos.idx as nat)
        &&& scan(before.pos.text@, k) == Some(
            Scanned { token: r.0@, extra: (self.pos.idx - k - 1) as nat },
        )
        &&& r.1 == (PosCtx { pos_start: before.pos, pos_end: self.pos })
    }

    /// Moves past one character, on the way that started at `before`.
    fn step(&mut self, Ghost(before): Ghost<Lexer>)
        requires
            before.wf(),
            old(self).moved(before, old(self).pos.idx as nat),
            before.pos.idx <= old(self).pos.idx,
            old(self).pos.idx < old(self).pos.text@.len(),
        ensures
            final(self).moved(before, (old(self).pos.idx + 1) as nat),
    {
        proof {
            lemma_position_at_via(
                *before.pos,
                self.pos.idx as nat,
                (self.pos.idx + 1) as nat,
            );
        }
        self.advance(1);
    }

    /// Reads a number from its first digit on: the longest run of digits
    /// with one `.` at most.
    fn make_numbers(&mut self) -> (r: (Token, PosCtx))
        requires
            old(self).wf(),
            old(self).pos.idx < old(self).pos.text@.len(),
            is_decimal_digit(old(self).cur_char),
        ensures
            final(self).scanned(*old(self), r),
    {
        let ghost text = self.pos.text@;
        let ghost k = self.pos.idx as nat;
        let cur_pos = self.pos.clone();
        let start = self.pos.idx;
        let mut dotted = false;
        proof {
            lemma_position_at(*self.pos, k);
        }
        self.step(Ghost(*old(self)));
        loop
            invariant
                old(self).wf(),
                text == old(self).pos.text@,
                k == old(self).pos.idx,
                k < text.len(),
                self.pos.idx > k,
                self.moved(*old(self), self.pos.idx as nat),
                number_run(text, k + 1, false) == (NumberRun {
                    len: (self.pos.idx - k - 1) as nat + number_run(
                        text,
                        self.pos.idx as nat,
                        dotted,
                    ).len,
                    dotted: number_run(text, self.pos.idx as nat, dotted).dotted,
                }),
                !dotted ==> forall|j: int| k <= j < self.pos.idx ==> is_decimal_digit(text[j]),
            ensures
                number_run(text, self.pos.idx as nat, dotted) == (NumberRun { len: 0, dotted }),
            decreases self.pos.len - self.pos.idx,
        {
            if self.at_end() {
                break ;
            }
            let c = self.cur_char;
            if c == '.' {
                if dotted {
                    break ;
                }
                dotted = true;
            } else if !is_digit(c) {
                break ;
            }
            self.step(Ghost(*old(self)));
        }
        let digits = self.pos.text.as_str().substring_char(start, self.pos.idx);
        let token = if dotted {
            Token::Float { value: digits.to_owned() }
        } else {
            Token::Int { value: parse_decimal(digits) }
        };
        (token, PosCtx { pos_start: cur_pos, pos_end: self.pos.clone() })
    }

    /// Reads a name from its first character on: the longest run of
    /// characters that can stand inside a name.
    fn make_idents(&mut self) -> (r: (Token, PosCtx))
        requires
            old(self).wf(),
            old(self).pos.idx < old(self).pos.text@.len(),
            starts_identifier(old(self).cur_char),
        ensures
            final(self).scanned(*old(self), r),
    {
        let ghost text = self.pos.text@;
        let ghost k = self.pos.idx as nat;
        let cur_pos = self.pos.clone();
        let start = self.pos.idx;
        proof {
            lemma_position_at(*self.pos, k);
        }
        self.step(Ghost(*old(self)));
        loop
            invariant
                old(self).wf(),
                text == old(self).pos.text@,
                k == old(self).pos.idx,
                k < text.len(),
                self.pos.idx > k,
                self.moved(*old(self), self.pos.idx as nat),
                identifier_run(text, k + 1) == (self.pos.idx - k - 1) as nat + identifier_run(
                    text,
                    self.pos.idx as nat,
                ),
            ensures
                identifier_run(text, self.pos.idx as nat) == 0,
            decreases self.pos.len - self.pos.idx,
        {
            if self.at_end() {
                break ;
            }
            let c = self.cur_char;
            let goes_on = if is_ascii(c) {
                identifier_goes_on(c, false)
            } else {
                identifier_goes_on(c, alphanumeric(c))
            };
            if !goes_on {
                break ;
            }
            self.step(Ghost(*old(self)));
        }
        let ident = self.pos.text.as_str().substring_char(start, self.pos.idx).to_owned();
        (Token::Ident { value: ident }, PosCtx { pos_start: cur_pos, pos_end: self.pos.clone() })
    }

    /// Reads the token of one character that the lexer stands at, or the
    /// token `double` of two where `second` follows.
    fn make_operator(&mut self, second: char, double: Token, single: Token) -> (r: (Token, PosCtx))
        requires
            old(self).wf(),
            old(self).pos.idx < old(self).pos.text@.len(),
            second != '\0',
            scan(old(self).pos.text@, old(self).pos.idx as nat) == one_or_two(
                char_or_nul(old(self).pos.text@, (old(self).pos.idx + 1) as nat),
                second,
                double@,
                self::single(single@),
            ),
        ensures
            final(self).scanned(*old(self), r),
    {
        if self.peek() == second {
            self.make_double(double)
        } else {
            self.make_single(single)
        }
    }

    /// Reads the token of two characters that the lexer stands at.
    fn make_double(&mut self, token: Token) -> (r: (Token, PosCtx))
        requires
            old(self).wf(),
            old(self).pos.idx + 1 < old(self).pos.text@.len(),
            scan(old(self).pos.text@, old(self).pos.idx as nat) == Some(
                Scanned { token: token@, extra: 1 },
            ),
        ensures
            final(self).scanned(*old(self), r),
    {
        let cur_pos = self.pos.clone();
        proof {
            lemma_position_at(*self.pos, self.pos.idx as nat);
        }
        self.step(Ghost(*old(self)));
        self.step(Ghost(*old(self)));
        (token, PosCtx { pos_start: cur_pos, pos_end: self.pos.clone() })
    }

    /// Reads `=` or `==`.
    pub fn make_equality(&mut self) -> (r: (Token, PosCtx))
        requires
            old(self).wf(),
            old(self).cur_char == '=',
        ensures
            final(self).scanned(*old(self), r),
    {
        self.make_operator('=', Token::Eq, Token::Assign)
    }

    /// Reads `<`, `<=`, `>` or `>=`.
    pub fn make_comparison(&mut self) -> (r: (Token, PosCtx))
        requires
            old(self).wf(),
            old(self).cur_char == '<' || old(self).cur_char == '>',
        ensures
            final(self).scanned(*old(self), r),
    {
        if self.cur_char == '>' {
            self.make_operator('=', Token::GreaterEq, Token::Greater)
        } else {
            self.make_operator('=', Token::LessEq, Token::Less)
        }
    }

    /// Reads the token of one character that the lexer stands at.
    fn make_single(&mut self, token: Token) -> (r: (Token, PosCtx))
        requires
            old(self).wf(),
            old(self).pos.idx < old(self).pos.text@.len(),
            scan(old(self).pos.text@, old(self).pos.idx as nat) == self::single(token@),
        ensures
            final(self).scanned(*old(self), r),
    {
        let cur_pos = self.pos.clone();
        proof {
            lemma_position_at(*self.pos, self.pos.idx as nat);
        }
        self.step(Ghost(*old(self)));
        (token, PosCtx { pos_start: cur_pos, pos_end: self.pos.clone() })
    }

    /// Reads the line from the position of the lexer to its end: the tokens
    /// and their spans, ended by `EndOfFile`, or the first character that
    /// starts no token. Nothing is returned of a line with such a character.
    pub fn make_tokens(&mut self) -> (r: Result<(Vec<Box<Token>>, Vec<Box<PosCtx>>), Box<Error>>)
        requires
            old(self).wf(),
        ensures
            lexed_view(r) == lex(*old(self).pos, old(self).pos.idx as nat),
            lexed_view(r) matches Ok(lexed) ==> is_line(lexed.tokens, lexed.spans),
            lexed_view(r) matches Err(error) ==> error is IllegalChar && is_within(error.ctx()),
            lexed_view(r) matches Ok(lexed) ==> forall|i: int|
                0 <= i < lexed.spans.len() ==> is_within(#[trigger] lexed.spans[i]),
    {
        let ghost origin = *self.pos;
        let ghost start = self.pos.idx as nat;
        let ghost text = self.pos.text@;
        let mut tokens: Vec<Box<Token>> = Vec::new();
        let mut posctxs: Vec<Box<PosCtx>> = Vec::new();
        proof {
            lemma_position_at(origin, start);
            lemma_lex_is_line(origin, start);
            lemma_lex_fails_with_illegal_char(origin, start);
            lemma_lex_spans_are_within(origin, start);
            assert(token_views(tokens@) =~= Seq::<TokenView>::empty());
            assert(span_values(posctxs@) =~= Seq::<PosCtx>::empty());
            assert(Seq::<TokenView>::empty() + seq![TokenView::EndOfFile] =~= seq![
                TokenView::EndOfFile,
            ]);
            lemma_joined_empty(lex(origin, start));
        }
        while !self.at_end()
            invariant
                old(self).wf(),
                origin == *old(self).pos,
                start == old(self).pos.idx,
                text == origin.text@,
                start <= self.pos.idx,
                self.moved(*old(self), self.pos.idx as nat),
                lex(origin, start) == joined(
                    token_views(tokens@),
                    span_values(posctxs@),
                    lex(origin, self.pos.idx as nat),
                ),
            decreases self.pos.len - self.pos.idx,
        {
            let ghost k = self.pos.idx as nat;
            let ghost here = *self;
            let ghost built_tokens = token_views(tokens@);
            let ghost built_spans = span_values(posctxs@);
            let c = self.cur_char;
            if c == ' ' || c == '\t' {
                self.step(Ghost(*old(self)));
            } else {
                let next = self.peek();
                let made = if starts_name(c) {
                    Some(self.make_idents())
                } else if is_digit(c) {
                    Some(self.make_numbers())
                } else if c == '+' {
                    Some(self.make_single(Token::Plus))
                } else if c == '-' {
                    Some(self.make_single(Token::Minus))
                } else if c == '*' {
                    Some(self.make_operator('*', Token::Pow, Token::Mul))
                } else if c == '/' {
                    Some(self.make_single(Token::Div))
                } else if c == '=' {
                    Some(self.make_equality())
                } else if c == '(' {
                    Some(self.make_single(Token::Lpar))
                } else if c == ')' {
                    Some(self.make_single(Token::Rpar))
                } else if c == '>' || c == '<' {
                    Some(self.make_comparison())
                } else if c == '!' && next == '=' {
                    Some(self.make_double(Token::NotEq))
                } else {
                    None
                };
                match made {
                    Some((token, posctx)) => {
                        proof {
                            lemma_position_at_via(origin, k, self.pos.idx as nat);
                            let rest = lex(origin, self.pos.idx as nat);
                            if rest is Ok {
                                assert((built_tokens + seq![token@]) + rest->Ok_0.tokens
                                    =~= built_tokens + (seq![token@] + rest->Ok_0.tokens));
                                assert((built_spans + seq![posctx]) + rest->Ok_0.spans
                                    =~= built_spans + (seq![posctx] + rest->Ok_0.spans));
                            }
                        }
                        tokens.push(Box::new(token));
                        posctxs.push(Box::new(posctx));
                        proof {
                            assert(token_views(tokens@) =~= built_tokens + seq![token@]);
                            assert(span_values(posctxs@) =~= built_spans + seq![posctx]);
                        }
                    },
                    None => {
                        let pos_start = self.pos.clone();
                        self.step(Ghost(*old(self)));
                        return Err(
                            Error::illegal_char(
                                Box::new(PosCtx { pos_start, pos_end: self.pos.clone() }),
                                "unknown character",
                            ),
                        );
                    },
                }
            }
        }
        let ghost built_tokens = token_views(tokens@);
        let ghost built_spans = span_values(posctxs@);
        tokens.push(Box::new(Token::EndOfFile));
        posctxs.push(Box::new(PosCtx { pos_start: self.pos.clone(), pos_end: self.pos.clone() }));
        proof {
            assert(token_views(tokens@) =~= built_tokens + seq![TokenView::EndOfFile]);
            assert(span_values(posctxs@) =~= built_spans + seq![
                span(origin, self.pos.idx as nat, self.pos.idx as nat),
            ]);
        }
        Ok((tokens, posctxs))
    }
}

/// Whether `c` is a decimal digit.
fn is_digit(c: char) -> (r: bool)
    ensures
        r == is_decimal_digit(c),
{
    c >= '0' && c <= '9'
}

/// Whether `c` can start a name.
fn starts_name(c: char) -> (r: bool)
    ensures
        r == starts_identifier(c),
{
    (c >= 'a' && c <= 'z') || (c >= 'A' && c <= 'Z') || c == '_'
}

/// Tokens behind no tokens are those tokens.
pub proof fn lemma_joined_empty(rest: Result<Lexed, ErrorView>)
    ensures
        joined(Seq::<TokenView>::empty(), Seq::<PosCtx>::empty(), rest) == rest,
{
    if rest is Ok {
        assert(Seq::<TokenView>::empty() + rest->Ok_0.tokens =~= rest->Ok_0.tokens);
        assert(Seq::<PosCtx>::empty() + rest->Ok_0.spans =~= rest->Ok_0.spans);
    }
}

} // verus!

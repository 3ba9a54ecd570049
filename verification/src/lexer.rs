//! Lexer: source text to tokens with byte spans.
//!
//! The source is modelled as its sequence of characters. A token's span is
//! the half-open range of UTF-8 byte offsets that it covers.

use vstd::prelude::*;
use vstd::string::StringExecFns;
use crate::text::{utf8_prefix_len, utf8_len, lemma_utf8_prefix_monotonic, char_width, chars_of,
    string_from, push_chars, push_usize, str_eq, dec};

verus! {

/// Half-open byte range `[start, end)` into the source.
#[derive(Debug, Clone, PartialEq)]
pub struct Span {
    pub start: usize,
    pub end: usize,
}

impl Span {
    pub fn new(start: usize, end: usize) -> (s: Span)
        ensures
            s.start == start,
            s.end == end,
    {
        Span { start, end }
    }

    /// A span with the same bounds.
    pub fn dup(&self) -> (s: Span)
        ensures
            s == *self,
    {
        Span { start: self.start, end: self.end }
    }
}

#[derive(Debug, Clone, Copy, PartialEq, Eq)]
pub enum DurationUnit {
    Ms,
    S,
    M,
    H,
}

impl DurationUnit {
    /// The unit's suffix as written in source text.
    pub open spec fn suffix(self) -> Seq<char> {
        match self {
            DurationUnit::Ms => "ms"@,
            DurationUnit::S => "s"@,
            DurationUnit::M => "m"@,
            DurationUnit::H => "h"@,
        }
    }

    /// The unit's suffix as written in source text.
    pub fn to_string(&self) -> (s: String)
        ensures
            s@ == self.suffix(),
    {
        match self {
            DurationUnit::Ms => String::from_str("ms"),
            DurationUnit::S => String::from_str("s"),
            DurationUnit::M => String::from_str("m"),
            DurationUnit::H => String::from_str("h"),
        }
    }
}

#[derive(Debug, Clone, PartialEq)]
pub enum TokenKind {
    LParen,
    RParen,
    LBracket,
    RBracket,
    LBrace,
    RBrace,
    Symbol(String),
    /// Without the leading colon.
    Keyword(String),
    StringLit(String),
    IntLit(i64),
    BoolLit(bool),
    DurationLit(u64, DurationUnit),
    RegexLit(String),
    /// Standalone `:` used as a map separator.
    Colon,
    /// `,` used as a separator in maps.
    Comma,
    Eof,
}

pub ghost enum TokenKindView {
    LParen,
    RParen,
    LBracket,
    RBracket,
    LBrace,
    RBrace,
    Symbol(Seq<char>),
    Keyword(Seq<char>),
    StringLit(Seq<char>),
    IntLit(i64),
    BoolLit(bool),
    DurationLit(u64, DurationUnit),
    RegexLit(Seq<char>),
    Colon,
    Comma,
    Eof,
}

impl View for TokenKind {
    type V = TokenKindView;

    open spec fn view(&self) -> TokenKindView {
        match self {
            TokenKind::LParen => TokenKindView::LParen,
            TokenKind::RParen => TokenKindView::RParen,
            TokenKind::LBracket => TokenKindView::LBracket,
            TokenKind::RBracket => TokenKindView::RBracket,
            TokenKind::LBrace => TokenKindView::LBrace,
            TokenKind::RBrace => TokenKindView::RBrace,
            TokenKind::Symbol(s) => TokenKindView::Symbol(s@),
            TokenKind::Keyword(s) => TokenKindView::Keyword(s@),
            TokenKind::StringLit(s) => TokenKindView::StringLit(s@),
            TokenKind::IntLit(n) => TokenKindView::IntLit(*n),
            TokenKind::BoolLit(b) => TokenKindView::BoolLit(*b),
            TokenKind::DurationLit(n, u) => TokenKindView::DurationLit(*n, *u),
            TokenKind::RegexLit(s) => TokenKindView::RegexLit(s@),
            TokenKind::Colon => TokenKindView::Colon,
            TokenKind::Comma => TokenKindView::Comma,
            TokenKind::Eof => TokenKindView::Eof,
        }
    }
}

impl TokenKind {
    /// A token kind with the same view.
    pub fn dup(&self) -> (k: TokenKind)
        ensures
            k@ == self@,
    {
        match self {
            TokenKind::LParen => TokenKind::LParen,
            TokenKind::RParen => TokenKind::RParen,
            TokenKind::LBracket => TokenKind::LBracket,
            TokenKind::RBracket => TokenKind::RBracket,
            TokenKind::LBrace => TokenKind::LBrace,
            TokenKind::RBrace => TokenKind::RBrace,
            TokenKind::Symbol(s) => TokenKind::Symbol(s.clone()),
            TokenKind::Keyword(s) => TokenKind::Keyword(s.clone()),
            TokenKind::StringLit(s) => TokenKind::StringLit(s.clone()),
            TokenKind::IntLit(n) => TokenKind::IntLit(*n),
            TokenKind::BoolLit(b) => TokenKind::BoolLit(*b),
            TokenKind::DurationLit(n, u) => TokenKind::DurationLit(*n, *u),
            TokenKind::RegexLit(s) => TokenKind::RegexLit(s.clone()),
            TokenKind::Colon => TokenKind::Colon,
            TokenKind::Comma => TokenKind::Comma,
            TokenKind::Eof => TokenKind::Eof,
        }
    }
}

#[derive(Debug, Clone, PartialEq)]
pub struct Token {
    pub kind: TokenKind,
    pub span: Span,
}

pub ghost struct TokenView {
    pub kind: TokenKindView,
    pub start: int,
    pub end: int,
}

impl View for Token {
    type V = TokenView;

    open spec fn view(&self) -> TokenView {
        TokenView { kind: self.kind@, start: self.span.start as int, end: self.span.end as int }
    }
}

impl Token {
    pub fn new(kind: TokenKind, span: Span) -> (t: Token)
        ensures
            t.kind == kind,
            t.span == span,
    {
        Token { kind, span }
    }
}

/// The views of a sequence of tokens.
pub open spec fn tokens_view(toks: Seq<Token>) -> Seq<TokenView> {
    toks.map_values(|t: Token| t@)
}

pub open spec fn spec_is_space(c: char) -> bool {
    c == ' ' || c == '\t' || c == '\n' || c == '\x0C' || c == '\r'
}

pub open spec fn spec_is_digit(c: char) -> bool {
    48 <= c as u32 <= 57
}

pub open spec fn spec_is_alpha(c: char) -> bool {
    65 <= c as u32 <= 90 || 97 <= c as u32 <= 122
}

pub open spec fn spec_is_symbol_start(c: char) -> bool {
    spec_is_alpha(c) || c == '_' || c == '-' || c == '+' || c == '*' || c == '/' || c == '!'
        || c == '?' || c == '>' || c == '<' || c == '=' || c == '.'
}

pub open spec fn spec_is_symbol_cont(c: char) -> bool {
    spec_is_symbol_start(c) || spec_is_digit(c)
}

pub fn is_space(c: char) -> (r: bool)
    ensures
        r == spec_is_space(c),
{
    c == ' ' || c == '\t' || c == '\n' || c == '\x0C' || c == '\r'
}

pub fn is_digit(c: char) -> (r: bool)
    ensures
        r == spec_is_digit(c),
{
    let n: u32 = c as u32;
    48 <= n && n <= 57
}

pub fn is_symbol_start(c: char) -> (r: bool)
    ensures
        r == spec_is_symbol_start(c),
{
    let n: u32 = c as u32;
    (65 <= n && n <= 90) || (97 <= n && n <= 122) || c == '_' || c == '-' || c == '+' || c == '*'
        || c == '/' || c == '!' || c == '?' || c == '>' || c == '<' || c == '=' || c == '.'
}

pub fn is_symbol_cont(c: char) -> (r: bool)
    ensures
        r == spec_is_symbol_cont(c),
{
    is_symbol_start(c) || is_digit(c)
}

/// The position at which the next token starts, or the end of the source:
/// whitespace and `;;` line comments from `pos` on are passed over.
pub open spec fn skip_trivia(src: Seq<char>, pos: int, in_comment: bool) -> int
    decreases src.len() - pos,
{
    if pos < 0 || pos >= src.len() {
        pos
    } else if in_comment {
        skip_trivia(src, pos + 1, src[pos] != '\n')
    } else if spec_is_space(src[pos]) {
        skip_trivia(src, pos + 1, false)
    } else if pos + 1 < src.len() && src[pos] == ';' && src[pos + 1] == ';' {
        skip_trivia(src, pos + 1, true)
    } else {
        pos
    }
}

/// Number of symbol-continuation characters from `pos` on.
pub open spec fn symbol_run(src: Seq<char>, pos: int) -> nat
    decreases src.len() - pos,
{
    if 0 <= pos < src.len() && spec_is_symbol_cont(src[pos]) {
        1 + symbol_run(src, pos + 1)
    } else {
        0
    }
}

/// Number of decimal digits from `pos` on.
pub open spec fn digit_run(src: Seq<char>, pos: int) -> nat
    decreases src.len() - pos,
{
    if 0 <= pos < src.len() && spec_is_digit(src[pos]) {
        1 + digit_run(src, pos + 1)
    } else {
        0
    }
}

/// Value of the decimal digits `src[from..to]`.
pub open spec fn digits_val(src: Seq<char>, from: int, to: int) -> nat
    decreases to - from,
{
    if to <= from {
        0
    } else {
        digits_val(src, from, to - 1) * 10 + (src[to - 1] as u32 - 48) as nat
    }
}

/// One step of the lexer: a token and the position after it, or a failure.
pub ghost enum LexStep {
    Tok { kind: TokenKindView, next: int },
    Fail { msg: Seq<char> },
}

/// The character that `\c` stands for inside a string literal.
pub open spec fn unescape(c: char) -> Option<char> {
    if c == '"' {
        Some('"')
    } else if c == '\\' {
        Some('\\')
    } else if c == 'n' {
        Some('\n')
    } else if c == 't' {
        Some('\t')
    } else if c == 'r' {
        Some('\r')
    } else {
        None
    }
}

/// Byte offset of the character index `pos`.
pub open spec fn boff(src: Seq<char>, pos: int) -> nat {
    utf8_prefix_len(src, pos)
}

/// Reads the rest of a string literal that opened at `start`; `pos` is the
/// next character to read and `acc` the value read so far.
pub open spec fn string_rest(src: Seq<char>, start: int, pos: int, acc: Seq<char>) -> LexStep
    decreases src.len() - pos,
{
    if pos < 0 || pos >= src.len() {
        LexStep::Fail { msg: "unterminated string starting at byte "@ + dec(boff(src, start)) }
    } else if src[pos] == '"' {
        LexStep::Tok { kind: TokenKindView::StringLit(acc), next: pos + 1 }
    } else if src[pos] == '\\' {
        if pos + 1 >= src.len() {
            LexStep::Fail { msg: "unterminated string escape at byte "@ + dec(boff(src, start)) }
        } else {
            match unescape(src[pos + 1]) {
                Some(c) => string_rest(src, start, pos + 2, acc.push(c)),
                None => LexStep::Fail {
                    msg: "unknown escape '\\"@.push(src[pos + 1]) + "' at byte "@ + dec(
                        boff(src, pos + 1),
                    ),
                },
            }
        }
    } else {
        string_rest(src, start, pos + 1, acc.push(src[pos]))
    }
}

/// Reads the rest of a regex literal that opened at `start`.
pub open spec fn regex_rest(src: Seq<char>, start: int, pos: int, acc: Seq<char>) -> LexStep
    decreases src.len() - pos,
{
    if pos < 0 || pos >= src.len() {
        LexStep::Fail {
            msg: "unterminated regex literal starting at byte "@ + dec(boff(src, start)),
        }
    } else if src[pos] == '/' {
        LexStep::Tok { kind: TokenKindView::RegexLit(acc), next: pos + 1 }
    } else if src[pos] == '\\' && pos + 1 < src.len() && src[pos + 1] == '/' {
        regex_rest(src, start, pos + 2, acc.push('/'))
    } else if src[pos] == '\\' && pos + 1 < src.len() {
        regex_rest(src, start, pos + 2, acc.push('\\').push(src[pos + 1]))
    } else {
        regex_rest(src, start, pos + 1, acc.push(src[pos]))
    }
}

/// Whether the character at `pos`, if any, continues a symbol.
pub open spec fn cont_at(src: Seq<char>, pos: int) -> bool {
    0 <= pos < src.len() && spec_is_symbol_cont(src[pos])
}

/// The duration unit written at `pos`, with its length: a suffix counts only
/// when no symbol character follows it.
pub open spec fn unit_at(src: Seq<char>, pos: int) -> Option<(DurationUnit, int)> {
    if pos + 1 < src.len() && src[pos] == 'm' && src[pos + 1] == 's' && !cont_at(src, pos + 2) {
        Some((DurationUnit::Ms, 2))
    } else if pos < src.len() && src[pos] == 's' && !cont_at(src, pos + 1) {
        Some((DurationUnit::S, 1))
    } else if pos < src.len() && src[pos] == 'h' && !cont_at(src, pos + 1) {
        Some((DurationUnit::H, 1))
    } else if pos < src.len() && src[pos] == 'm' && !cont_at(src, pos + 1) {
        Some((DurationUnit::M, 1))
    } else {
        None
    }
}

/// A number or duration that starts at `pos`, where `src[pos]` is a digit, or
/// `-` followed by a digit.
pub open spec fn number_at(src: Seq<char>, pos: int) -> LexStep {
    let negative = src[pos] == '-';
    let first = if negative { pos + 1 } else { pos };
    let end = first + digit_run(src, first);
    let magnitude = digits_val(src, first, end);
    match unit_at(src, end) {
        Some((unit, len)) => if magnitude <= u64::MAX {
            LexStep::Tok { kind: TokenKindView::DurationLit(magnitude as u64, unit), next: end + len }
        } else {
            LexStep::Fail { msg: "invalid duration number: number too large to fit in target type"@ }
        },
        None => if !negative && magnitude <= i64::MAX {
            LexStep::Tok { kind: TokenKindView::IntLit(magnitude as i64), next: end }
        } else if negative && magnitude <= i64::MAX + 1 {
            LexStep::Tok { kind: TokenKindView::IntLit((-(magnitude as int)) as i64), next: end }
        } else if negative {
            LexStep::Fail {
                msg: "invalid integer '"@ + src.subrange(pos, end)
                    + "': number too small to fit in target type"@,
            }
        } else {
            LexStep::Fail {
                msg: "invalid integer '"@ + src.subrange(pos, end)
                    + "': number too large to fit in target type"@,
            }
        },
    }
}

/// A symbol or boolean literal that starts at `pos`.
pub open spec fn symbol_at(src: Seq<char>, pos: int) -> LexStep {
    let end = pos + symbol_run(src, pos);
    let text = src.subrange(pos, end);
    if text == "true"@ {
        LexStep::Tok { kind: TokenKindView::BoolLit(true), next: end }
    } else if text == "false"@ {
        LexStep::Tok { kind: TokenKindView::BoolLit(false), next: end }
    } else {
        LexStep::Tok { kind: TokenKindView::Symbol(text), next: end }
    }
}

/// A keyword or a standalone colon at `pos`, where `src[pos]` is `:`.
pub open spec fn colon_at(src: Seq<char>, pos: int) -> LexStep {
    if pos + 1 < src.len() && spec_is_symbol_start(src[pos + 1]) {
        let end = pos + 1 + symbol_run(src, pos + 1);
        LexStep::Tok { kind: TokenKindView::Keyword(src.subrange(pos + 1, end)), next: end }
    } else {
        LexStep::Tok { kind: TokenKindView::Colon, next: pos + 1 }
    }
}

/// What stands at `pos`, where `src[pos]` is `#`.
pub open spec fn hash_at(src: Seq<char>, pos: int) -> LexStep {
    if pos + 1 < src.len() && src[pos + 1] == '/' {
        regex_rest(src, pos, pos + 2, Seq::empty())
    } else {
        LexStep::Fail { msg: "unexpected '#' at byte "@ + dec(boff(src, pos)) }
    }
}

/// The token that starts at `pos`, for `0 <= pos < src.len()`.
pub open spec fn token_at(src: Seq<char>, pos: int) -> LexStep {
    let c = src[pos];
    if c == '(' {
        LexStep::Tok { kind: TokenKindView::LParen, next: pos + 1 }
    } else if c == ')' {
        LexStep::Tok { kind: TokenKindView::RParen, next: pos + 1 }
    } else if c == '[' {
        LexStep::Tok { kind: TokenKindView::LBracket, next: pos + 1 }
    } else if c == ']' {
        LexStep::Tok { kind: TokenKindView::RBracket, next: pos + 1 }
    } else if c == '{' {
        LexStep::Tok { kind: TokenKindView::LBrace, next: pos + 1 }
    } else if c == '}' {
        LexStep::Tok { kind: TokenKindView::RBrace, next: pos + 1 }
    } else if c == '"' {
        string_rest(src, pos, pos + 1, Seq::empty())
    } else if c == ':' {
        colon_at(src, pos)
    } else if c == ',' {
        LexStep::Tok { kind: TokenKindView::Comma, next: pos + 1 }
    } else if c == '#' {
        hash_at(src, pos)
    } else if spec_is_digit(c) {
        number_at(src, pos)
    } else if c == '-' && pos + 1 < src.len() && spec_is_digit(src[pos + 1]) {
        number_at(src, pos)
    } else if spec_is_symbol_start(c) {
        symbol_at(src, pos)
    } else {
        LexStep::Fail {
            msg: "unexpected character '"@.push(c) + "' at byte "@ + dec(boff(src, pos)),
        }
    }
}

/// Outcome of lexing a whole source.
pub ghost enum LexOutcome {
    Tokens(Seq<TokenView>),
    Failed(Seq<char>),
}

/// A literal that was opened and closed spans at least its delimiters.
pub proof fn lemma_string_rest_advances(src: Seq<char>, start: int, pos: int, acc: Seq<char>)
    ensures
        string_rest(src, start, pos, acc) matches LexStep::Tok { next, .. } ==> pos < next
            <= src.len(),
    decreases src.len() - pos,
{
    if 0 <= pos < src.len() && src[pos] != '"' {
        if src[pos] == '\\' {
            if pos + 1 < src.len() {
                if let Some(c) = unescape(src[pos + 1]) {
                    lemma_string_rest_advances(src, start, pos + 2, acc.push(c));
                }
            }
        } else {
            lemma_string_rest_advances(src, start, pos + 1, acc.push(src[pos]));
        }
    }
}

pub proof fn lemma_regex_rest_advances(src: Seq<char>, start: int, pos: int, acc: Seq<char>)
    ensures
        regex_rest(src, start, pos, acc) matches LexStep::Tok { next, .. } ==> pos < next
            <= src.len(),
    decreases src.len() - pos,
{
    if 0 <= pos < src.len() && src[pos] != '/' {
        if src[pos] == '\\' && pos + 1 < src.len() && src[pos + 1] == '/' {
            lemma_regex_rest_advances(src, start, pos + 2, acc.push('/'));
        } else if src[pos] == '\\' && pos + 1 < src.len() {
            lemma_regex_rest_advances(src, start, pos + 2, acc.push('\\').push(src[pos + 1]));
        } else {
            lemma_regex_rest_advances(src, start, pos + 1, acc.push(src[pos]));
        }
    }
}

pub proof fn lemma_symbol_run_bound(src: Seq<char>, pos: int)
    requires
        0 <= pos <= src.len(),
    ensures
        pos + symbol_run(src, pos) <= src.len(),
    decreases src.len() - pos,
{
    if pos < src.len() && spec_is_symbol_cont(src[pos]) {
        lemma_symbol_run_bound(src, pos + 1);
    }
}

pub proof fn lemma_digit_run_bound(src: Seq<char>, pos: int)
    requires
        0 <= pos <= src.len(),
    ensures
        pos + digit_run(src, pos) <= src.len(),
    decreases src.len() - pos,
{
    if pos < src.len() && spec_is_digit(src[pos]) {
        lemma_digit_run_bound(src, pos + 1);
    }
}

/// Every token covers at least one character and ends inside the source.
pub proof fn lemma_token_at_advances(src: Seq<char>, pos: int)
    requires
        0 <= pos < src.len(),
    ensures
        token_at(src, pos) matches LexStep::Tok { next, .. } ==> pos < next <= src.len(),
{
    lemma_string_rest_advances(src, pos, pos + 1, Seq::empty());
    lemma_regex_rest_advances(src, pos, pos + 2, Seq::empty());
    lemma_symbol_run_bound(src, pos);
    lemma_symbol_run_bound(src, pos + 1);
    lemma_digit_run_bound(src, pos);
    lemma_digit_run_bound(src, pos + 1);
}

/// The tokens of `src` from `pos` on, appended to `acc`, ending with the
/// end-of-stream sentinel; or the first failure.
pub open spec fn lex_from(src: Seq<char>, pos: int, acc: Seq<TokenView>) -> LexOutcome
    decreases src.len() - pos,
{
    let p = skip_trivia(src, pos, false);
    if p < 0 || p >= src.len() {
        LexOutcome::Tokens(
            acc.push(
                TokenView {
                    kind: TokenKindView::Eof,
                    start: boff(src, p) as int,
                    end: boff(src, p) as int,
                },
            ),
        )
    } else {
        match token_at(src, p) {
            LexStep::Tok { kind, next } => {
                proof {
                    lemma_token_at_advances(src, p);
                    lemma_skip_trivia_bounds(src, pos, false);
                }
                lex_from(
                    src,
                    next,
                    acc.push(
                        TokenView { kind, start: boff(src, p) as int, end: boff(src, next) as int },
                    ),
                )
            },
            LexStep::Fail { msg } => LexOutcome::Failed(msg),
        }
    }
}

pub proof fn lemma_skip_trivia_bounds(src: Seq<char>, pos: int, in_comment: bool)
    requires
        0 <= pos <= src.len(),
    ensures
        pos <= skip_trivia(src, pos, in_comment) <= src.len(),
    decreases src.len() - pos,
{
    if pos < src.len() {
        if in_comment {
            lemma_skip_trivia_bounds(src, pos + 1, src[pos] != '\n');
        } else if spec_is_space(src[pos]) {
            lemma_skip_trivia_bounds(src, pos + 1, false);
        } else if pos + 1 < src.len() && src[pos] == ';' && src[pos + 1] == ';' {
            lemma_skip_trivia_bounds(src, pos + 1, true);
        }
    }
}

/// The tokens of a whole source.
pub open spec fn lex(src: Seq<char>) -> LexOutcome {
    lex_from(src, 0, Seq::empty())
}


pub proof fn lemma_digits_val_monotonic(src: Seq<char>, from: int, mid: int, to: int)
    requires
        from <= mid <= to,
        forall|k: int| from <= k < to ==> spec_is_digit(#[trigger] src[k]),
    ensures
        digits_val(src, from, mid) <= digits_val(src, from, to),
    decreases to - mid,
{
    if mid < to {
        lemma_digits_val_monotonic(src, from, mid, to - 1);
    }
}

/// When lexing succeeds: every token but the end-of-stream sentinel covers at
/// least one byte, and tokens follow one another in the source.
pub open spec fn spans_ordered(toks: Seq<TokenView>) -> bool {
    &&& forall|i: int| 0 <= i < toks.len() - 1 ==> (#[trigger] toks[i]).start < toks[i].end
    &&& forall|i: int| 0 <= i < toks.len() ==> (#[trigger] toks[i]).start <= toks[i].end
    &&& forall|i: int, j: int|
        0 <= i < j < toks.len() ==> (#[trigger] toks[i]).end <= (#[trigger] toks[j]).start
}

/// Whether `r` is what the lexer step `step` prescribes.
pub open spec fn step_matches(r: Result<Token, String>, step: LexStep, next: int) -> bool {
    match r {
        Ok(t) => step == (LexStep::Tok { kind: t.kind@, next }),
        Err(e) => step == (LexStep::Fail { msg: e@ }),
    }
}

/// Whether `r` is the outcome `out`.
pub open spec fn outcome_matches(r: Result<Vec<Token>, String>, out: LexOutcome) -> bool {
    match r {
        Ok(toks) => out == LexOutcome::Tokens(tokens_view(toks@)),
        Err(e) => out == LexOutcome::Failed(e@),
    }
}

/// `prefix` followed by the decimal rendering of `n`.
fn message_at(prefix: &str, n: usize) -> (s: String)
    ensures
        s@ == prefix@ + dec(n as nat),
{
    let mut s = String::from_str(prefix);
    push_usize(&mut s, n);
    s
}

fn unescape_char(c: char) -> (r: Option<char>)
    ensures
        r == unescape(c),
{
    if c == '"' {
        Some('"')
    } else if c == '\\' {
        Some('\\')
    } else if c == 'n' {
        Some('\n')
    } else if c == 't' {
        Some('\t')
    } else if c == 'r' {
        Some('\r')
    } else {
        None
    }
}

/// The value of the digits `v[from..to]`, unless it exceeds `u64::MAX`.
fn parse_digits(v: &Vec<char>, from: usize, to: usize) -> (r: Option<u64>)
    requires
        from <= to <= v.len(),
        forall|k: int| from <= k < to ==> spec_is_digit(#[trigger] v@[k]),
    ensures
        match r {
            Some(n) => n == digits_val(v@, from as int, to as int),
            None => digits_val(v@, from as int, to as int) > u64::MAX,
        },
{
    let mut acc: u64 = 0;
    let mut i: usize = from;
    while i < to
        invariant
            from <= i <= to,
            acc == digits_val(v@, from as int, i as int),
        decreases to - i,
    {
        let d: u64 = (v[i] as u32 - 48) as u64;
        if acc > (u64::MAX - d) / 10 {
            proof {
                lemma_digits_val_monotonic(v@, from as int, i as int + 1, to as int);
            }
            return None;
        }
        acc = acc * 10 + d;
        i += 1;
    }
    Some(acc)
}

fn digit_follows(next: Option<char>) -> (r: bool)
    ensures
        r == (next matches Some(c) && spec_is_digit(c)),
{
    match next {
        Some(c) => is_digit(c),
        None => false,
    }
}

pub struct Lexer {
    chars: Vec<char>,
    pos: usize,
    byte_pos: usize,
}

impl Lexer {
    /// The source text.
    pub closed spec fn source(&self) -> Seq<char> {
        self.chars@
    }

    /// Index of the next character to read.
    pub closed spec fn position(&self) -> int {
        self.pos as int
    }

    /// The position lies inside the source, the byte offset belongs to it, and
    /// every byte offset of the source fits the machine word.
    pub closed spec fn wf(&self) -> bool {
        &&& self.pos <= self.chars.len()
        &&& self.byte_pos == utf8_prefix_len(self.chars@, self.pos as int)
        &&& utf8_len(self.chars@) <= usize::MAX
    }

    pub fn new(source: &str) -> (l: Lexer)
        ensures
            l.wf(),
            l.source() == source@,
            l.position() == 0,
    {
        crate::text::check_len(source);
        Lexer { chars: chars_of(source), pos: 0, byte_pos: 0 }
    }

    /// Lexes the rest of the source: the tokens in order, ending with the
    /// end-of-stream sentinel, or the message of the first failure.
    pub fn tokenize(&mut self) -> (r: Result<Vec<Token>, String>)
        requires
            old(self).wf(),
        ensures
            final(self).wf(),
            final(self).source() == old(self).source(),
            outcome_matches(r, lex_from(old(self).source(), old(self).position(), Seq::empty())),
            r matches Ok(toks) ==> spans_ordered(tokens_view(toks@)) && toks@.len() > 0
                && toks@.last().kind@ == TokenKindView::Eof,
    {
        let mut tokens: Vec<Token> = Vec::new();
        let ghost src = self.chars@;
        let ghost goal = lex_from(src, self.pos as int, Seq::empty());
        assert(tokens_view(tokens@) =~= Seq::empty());
        loop
            invariant
                self.wf(),
                self.chars@ == src,
                lex_from(src, self.pos as int, tokens_view(tokens@)) == goal,
                forall|i: int|
                    0 <= i < tokens@.len() ==> (#[trigger] tokens@[i]).span.start
                        < tokens@[i].span.end <= self.byte_pos,
                forall|i: int, j: int|
                    0 <= i < j < tokens@.len() ==> (#[trigger] tokens@[i]).span.end <= (
                    #[trigger] tokens@[j]).span.start,
            decreases self.chars.len() - self.pos,
        {
            let ghost before = self.pos as int;
            let ghost before_byte = self.byte_pos;
            self.skip_whitespace_and_comments();
            proof {
                lemma_utf8_prefix_monotonic(src, before, self.pos as int);
            }
            if self.pos >= self.chars.len() {
                let eof = Token::new(TokenKind::Eof, Span::new(self.byte_pos, self.byte_pos));
                proof {
                    crate::text::lemma_map_push(tokens@, eof, |t: Token| t@);
                }
                tokens.push(eof);
                return Ok(tokens);
            }
            let ghost at = self.pos as int;
            let ghost at_byte = self.byte_pos;
            match self.next_token() {
                Ok(token) => {
                    proof {
                        crate::text::lemma_map_push(tokens@, token, |t: Token| t@);
                        lemma_utf8_prefix_monotonic(src, at, self.pos as int);
                    }
                    tokens.push(token);
                },
                Err(e) => {
                    return Err(e);
                },
            }
        }
    }

    fn bump(&mut self)
        requires
            old(self).wf(),
            old(self).pos < old(self).chars.len(),
        ensures
            final(self).wf(),
            final(self).chars == old(self).chars,
            final(self).pos == old(self).pos + 1,
    {
        proof {
            lemma_utf8_prefix_monotonic(self.chars@, self.pos as int + 1, self.chars.len() as int);
        }
        let w = char_width(self.chars[self.pos]);
        self.byte_pos = self.byte_pos + w;
        self.pos = self.pos + 1;
    }

    fn skip_whitespace_and_comments(&mut self)
        requires
            old(self).wf(),
        ensures
            final(self).wf(),
            final(self).chars == old(self).chars,
            final(self).pos == skip_trivia(old(self).chars@, old(self).pos as int, false),
            final(self).pos >= old(self).pos,
    {
        let mut in_comment = false;
        let mut done = false;
        while !done && self.pos < self.chars.len()
            invariant
                self.wf(),
                self.chars == old(self).chars,
                self.pos >= old(self).pos,
                skip_trivia(self.chars@, self.pos as int, in_comment) == skip_trivia(
                    old(self).chars@,
                    old(self).pos as int,
                    false,
                ),
                done ==> skip_trivia(self.chars@, self.pos as int, in_comment) == self.pos,
            decreases self.chars.len() - self.pos + if done { 0int } else { 1int },
        {
            let ch = self.chars[self.pos];
            if in_comment {
                in_comment = ch != '\n';
                self.bump();
            } else if is_space(ch) {
                self.bump();
            } else if self.pos + 1 < self.chars.len() && ch == ';' && self.chars[self.pos + 1]
                == ';' {
                in_comment = true;
                self.bump();
            } else {
                done = true;
            }
        }
    }

    fn peek_next(&self) -> (r: Option<char>)
        requires
            self.wf(),
        ensures
            r == if self.pos + 1 < self.chars.len() {
                Some(self.chars@[self.pos + 1])
            } else {
                None
            },
    {
        if self.pos < self.chars.len() && self.pos + 1 < self.chars.len() {
            Some(self.chars[self.pos + 1])
        } else {
            None
        }
    }

    /// A token of one character.
    fn single(&mut self, kind: TokenKind) -> (r: Result<Token, String>)
        requires
            old(self).wf(),
            old(self).pos < old(self).chars.len(),
        ensures
            final(self).wf(),
            final(self).chars == old(self).chars,
            final(self).pos == old(self).pos + 1,
            r matches Ok(t) && t.kind == kind && t.span.start == old(self).byte_pos && t.span.end
                == final(self).byte_pos,
    {
        let start = self.byte_pos;
        self.bump();
        Ok(Token::new(kind, Span::new(start, self.byte_pos)))
    }

    fn next_token(&mut self) -> (r: Result<Token, String>)
        requires
            old(self).wf(),
            old(self).pos < old(self).chars.len(),
        ensures
            final(self).wf(),
            final(self).chars == old(self).chars,
            step_matches(r, token_at(old(self).chars@, old(self).pos as int), final(self).pos as int),
            r matches Ok(t) ==> final(self).pos > old(self).pos && t.span.start == old(
                self,
            ).byte_pos && t.span.end == final(self).byte_pos,
    {
        let ch = self.chars[self.pos];
        if ch == '(' {
            self.single(TokenKind::LParen)
        } else if ch == ')' {
            self.single(TokenKind::RParen)
        } else if ch == '[' {
            self.single(TokenKind::LBracket)
        } else if ch == ']' {
            self.single(TokenKind::RBracket)
        } else if ch == '{' {
            self.single(TokenKind::LBrace)
        } else if ch == '}' {
            self.single(TokenKind::RBrace)
        } else if ch == '"' {
            self.lex_string()
        } else if ch == ':' {
            self.lex_keyword_or_colon()
        } else if ch == ',' {
            self.single(TokenKind::Comma)
        } else if ch == '#' {
            self.lex_hash()
        } else if is_digit(ch) {
            self.lex_number_or_duration()
        } else if ch == '-' && digit_follows(self.peek_next()) {
            self.lex_number_or_duration()
        } else if is_symbol_start(ch) {
            self.lex_symbol()
        } else {
            let mut msg = String::from_str("unexpected character '");
            msg.push(ch);
            msg.append("' at byte ");
            push_usize(&mut msg, self.byte_pos);
            Err(msg)
        }
    }

    fn lex_string(&mut self) -> (r: Result<Token, String>)
        requires
            old(self).wf(),
            old(self).pos < old(self).chars.len(),
        ensures
            final(self).wf(),
            final(self).chars == old(self).chars,
            step_matches(
                r,
                string_rest(
                    old(self).chars@,
                    old(self).pos as int,
                    old(self).pos + 1,
                    Seq::empty(),
                ),
                final(self).pos as int,
            ),
            r matches Ok(t) ==> final(self).pos > old(self).pos && t.span.start == old(
                self,
            ).byte_pos && t.span.end == final(self).byte_pos,
    {
        let start = self.pos;
        let start_byte = self.byte_pos;
        self.bump();
        let mut value = String::new();
        while self.pos < self.chars.len()
            invariant
                self.wf(),
                self.chars == old(self).chars,
                self.pos > start,
                string_rest(self.chars@, start as int, self.pos as int, value@) == string_rest(
                    self.chars@,
                    start as int,
                    start + 1,
                    Seq::empty(),
                ),
            decreases self.chars.len() - self.pos,
        {
            let ch = self.chars[self.pos];
            if ch == '"' {
                self.bump();
                return Ok(
                    Token::new(TokenKind::StringLit(value), Span::new(start_byte, self.byte_pos)),
                );
            } else if ch == '\\' {
                self.bump();
                if self.pos >= self.chars.len() {
                    return Err(message_at("unterminated string escape at byte ", start_byte));
                }
                let e = self.chars[self.pos];
                match unescape_char(e) {
                    Some(c) => {
                        value.push(c);
                    },
                    None => {
                        let mut msg = String::from_str("unknown escape '\\");
                        msg.push(e);
                        msg.append("' at byte ");
                        push_usize(&mut msg, self.byte_pos);
                        return Err(msg);
                    },
                }
                self.bump();
            } else {
                value.push(ch);
                self.bump();
            }
        }
        Err(message_at("unterminated string starting at byte ", start_byte))
    }

    fn lex_keyword_or_colon(&mut self) -> (r: Result<Token, String>)
        requires
            old(self).wf(),
            old(self).pos < old(self).chars.len(),
        ensures
            final(self).wf(),
            final(self).chars == old(self).chars,
            step_matches(r, colon_at(old(self).chars@, old(self).pos as int), final(self).pos as int),
            r matches Ok(t) && final(self).pos > old(self).pos && t.span.start == old(
                self,
            ).byte_pos && t.span.end == final(self).byte_pos,
    {
        let start_byte = self.byte_pos;
        self.bump();
        if self.pos >= self.chars.len() || !is_symbol_start(self.chars[self.pos]) {
            return Ok(Token::new(TokenKind::Colon, Span::new(start_byte, self.byte_pos)));
        }
        let sym_start = self.pos;
        self.scan_symbol();
        let name = string_from(&self.chars, sym_start, self.pos);
        Ok(Token::new(TokenKind::Keyword(name), Span::new(start_byte, self.byte_pos)))
    }

    /// Passes over symbol-continuation characters.
    fn scan_symbol(&mut self)
        requires
            old(self).wf(),
        ensures
            final(self).wf(),
            final(self).chars == old(self).chars,
            final(self).pos == old(self).pos + symbol_run(old(self).chars@, old(self).pos as int),
    {
        while self.pos < self.chars.len() && is_symbol_cont(self.chars[self.pos])
            invariant
                self.wf(),
                self.chars == old(self).chars,
                self.pos + symbol_run(self.chars@, self.pos as int) == old(self).pos + symbol_run(
                    old(self).chars@,
                    old(self).pos as int,
                ),
            decreases self.chars.len() - self.pos,
        {
            self.bump();
        }
    }

    fn lex_hash(&mut self) -> (r: Result<Token, String>)
        requires
            old(self).wf(),
            old(self).pos < old(self).chars.len(),
        ensures
            final(self).wf(),
            final(self).chars == old(self).chars,
            step_matches(r, hash_at(old(self).chars@, old(self).pos as int), final(self).pos as int),
            r matches Ok(t) ==> final(self).pos > old(self).pos && t.span.start == old(
                self,
            ).byte_pos && t.span.end == final(self).byte_pos,
    {
        let start = self.pos;
        let start_byte = self.byte_pos;
        if self.pos + 1 < self.chars.len() && self.chars[self.pos + 1] == '/' {
            self.bump();
            self.bump();
            let mut pattern = String::new();
            while self.pos < self.chars.len()
                invariant
                    self.wf(),
                    self.chars == old(self).chars,
                    self.pos > start,
                    regex_rest(self.chars@, start as int, self.pos as int, pattern@) == regex_rest(
                        self.chars@,
                        start as int,
                        start + 2,
                        Seq::empty(),
                    ),
                decreases self.chars.len() - self.pos,
            {
                let ch = self.chars[self.pos];
                if ch == '/' {
                    self.bump();
                    return Ok(
                        Token::new(
                            TokenKind::RegexLit(pattern),
                            Span::new(start_byte, self.byte_pos),
                        ),
                    );
                } else if ch == '\\' && self.pos + 1 < self.chars.len() && self.chars[self.pos + 1]
                    == '/' {
                    pattern.push('/');
                    self.bump();
                    self.bump();
                } else if ch == '\\' && self.pos + 1 < self.chars.len() {
                    pattern.push('\\');
                    self.bump();
                    pattern.push(self.chars[self.pos]);
                    self.bump();
                } else {
                    pattern.push(ch);
                    self.bump();
                }
            }
            Err(message_at("unterminated regex literal starting at byte ", start_byte))
        } else {
            Err(message_at("unexpected '#' at byte ", start_byte))
        }
    }

    /// Whether a symbol-continuation character stands `ahead` characters on.
    fn cont_ahead(&self, ahead: usize) -> (r: bool)
        requires
            self.wf(),
            ahead <= 2,
        ensures
            r == cont_at(self.chars@, self.pos + ahead),
    {
        if self.chars.len() - self.pos > ahead {
            is_symbol_cont(self.chars[self.pos + ahead])
        } else {
            false
        }
    }

    /// The duration unit at the current position, with its length.
    fn unit_here(&self) -> (r: Option<(DurationUnit, usize)>)
        requires
            self.wf(),
        ensures
            match r {
                Some((u, n)) => unit_at(self.chars@, self.pos as int) == Some((u, n as int)) && 1
                    <= n <= 2 && self.pos + n <= self.chars.len(),
                None => unit_at(self.chars@, self.pos as int).is_none(),
            },
    {
        if self.pos >= self.chars.len() {
            return None;
        }
        let ch = self.chars[self.pos];
        if ch == 'm' && self.pos + 1 < self.chars.len() && self.chars[self.pos + 1] == 's'
            && !self.cont_ahead(2) {
            Some((DurationUnit::Ms, 2))
        } else if ch == 's' && !self.cont_ahead(1) {
            Some((DurationUnit::S, 1))
        } else if ch == 'h' && !self.cont_ahead(1) {
            Some((DurationUnit::H, 1))
        } else if ch == 'm' && !self.cont_ahead(1) {
            Some((DurationUnit::M, 1))
        } else {
            None
        }
    }

    fn lex_number_or_duration(&mut self) -> (r: Result<Token, String>)
        requires
            old(self).wf(),
            old(self).pos < old(self).chars.len(),
            spec_is_digit(old(self).chars@[old(self).pos as int]) || (old(self).chars@[old(
                self,
            ).pos as int] == '-' && old(self).pos + 1 < old(self).chars.len()),
        ensures
            final(self).wf(),
            final(self).chars == old(self).chars,
            step_matches(r, number_at(old(self).chars@, old(self).pos as int), final(self).pos as int),
            r matches Ok(t) ==> final(self).pos > old(self).pos && t.span.start == old(
                self,
            ).byte_pos && t.span.end == final(self).byte_pos,
    {
        let start = self.pos;
        let start_byte = self.byte_pos;
        let negative = self.chars[self.pos] == '-';
        if negative {
            self.bump();
        }
        let first = self.pos;
        while self.pos < self.chars.len() && is_digit(self.chars[self.pos])
            invariant
                self.wf(),
                self.chars == old(self).chars,
                first <= self.pos,
                self.pos + digit_run(self.chars@, self.pos as int) == first + digit_run(
                    self.chars@,
                    first as int,
                ),
                forall|k: int| first <= k < self.pos ==> spec_is_digit(#[trigger] self.chars@[k]),
            decreases self.chars.len() - self.pos,
        {
            self.bump();
        }
        let end = self.pos;
        let magnitude = parse_digits(&self.chars, first, end);
        match self.unit_here() {
            Some((unit, len)) => {
                match magnitude {
                    Some(value) => {
                        self.bump();
                        if len == 2 {
                            self.bump();
                        }
                        Ok(
                            Token::new(
                                TokenKind::DurationLit(value, unit),
                                Span::new(start_byte, self.byte_pos),
                            ),
                        )
                    },
                    None => Err(
                        String::from_str(
                            "invalid duration number: number too large to fit in target type",
                        ),
                    ),
                }
            },
            None => {
                let value: Option<i64> = match magnitude {
                    Some(m) => {
                        if !negative && m <= 0x7fff_ffff_ffff_ffff {
                            Some(m as i64)
                        } else if negative && m <= 0x7fff_ffff_ffff_ffff {
                            Some(-(m as i64))
                        } else if negative && m == 0x8000_0000_0000_0000 {
                            Some(i64::MIN)
                        } else {
                            None
                        }
                    },
                    None => None,
                };
                match value {
                    Some(v) => Ok(
                        Token::new(TokenKind::IntLit(v), Span::new(start_byte, self.byte_pos)),
                    ),
                    None => {
                        let mut msg = String::from_str("invalid integer '");
                        push_chars(&mut msg, &self.chars, start, end);
                        if negative {
                            msg.append("': number too small to fit in target type");
                        } else {
                            msg.append("': number too large to fit in target type");
                        }
                        Err(msg)
                    },
                }
            },
        }
    }

    fn lex_symbol(&mut self) -> (r: Result<Token, String>)
        requires
            old(self).wf(),
            old(self).pos < old(self).chars.len(),
            spec_is_symbol_start(old(self).chars@[old(self).pos as int]),
        ensures
            final(self).wf(),
            final(self).chars == old(self).chars,
            step_matches(r, symbol_at(old(self).chars@, old(self).pos as int), final(self).pos as int),
            r matches Ok(t) && final(self).pos > old(self).pos && t.span.start == old(
                self,
            ).byte_pos && t.span.end == final(self).byte_pos,
    {
        let start = self.pos;
        let start_byte = self.byte_pos;
        self.scan_symbol();
        let text = string_from(&self.chars, start, self.pos);
        let span = Span::new(start_byte, self.byte_pos);
        if str_eq(text.as_str(), "true") {
            Ok(Token::new(TokenKind::BoolLit(true), span))
        } else if str_eq(text.as_str(), "false") {
            Ok(Token::new(TokenKind::BoolLit(false), span))
        } else {
            Ok(Token::new(TokenKind::Symbol(text), span))
        }
    }
}

} // verus!

//! The token that a word of text is lexed as.
//!
//! Each lemma takes a place in a text, the number of blank characters that
//! stand there, and the word behind them, and tells which token the lexer
//! makes of it and where that token ends.

use vstd::prelude::*;
use crate::lexer::{DurationUnit, TokenKindView, LexStep, skip_trivia, token_at, symbol_at,
    colon_at, hash_at, number_at, unit_at, cont_at, string_rest, regex_rest, symbol_run, digit_run,
    digits_val, spec_is_space, spec_is_digit, spec_is_symbol_start, spec_is_symbol_cont};
use crate::reading::token_end;
use crate::text::{dec, digit_char};

verus! {

/// Whether the word `w` stands in `src` at `p`.
#[verifier::opaque]
pub open spec fn holds(src: Seq<char>, p: int, w: Seq<char>) -> bool {
    &&& 0 <= p
    &&& p + w.len() <= src.len()
    &&& forall|j: int| 0 <= j < w.len() ==> src[p + j] == #[trigger] w[j]
}

/// Whether `n` blank characters stand in `src` at `p`.
#[verifier::opaque]
pub open spec fn blank(src: Seq<char>, p: int, n: int) -> bool {
    &&& 0 <= p
    &&& 0 <= n
    &&& p + n <= src.len()
    &&& forall|j: int| p <= j < p + n ==> spec_is_space(#[trigger] src[j])
}

/// Whether every character of `w` may stand inside a symbol.
pub open spec fn all_cont(w: Seq<char>) -> bool {
    forall|j: int| 0 <= j < w.len() ==> spec_is_symbol_cont(#[trigger] w[j])
}

/// Whether `w` is the text of a keyword behind its colon.
pub open spec fn keyword_text(w: Seq<char>) -> bool {
    w.len() > 0 && spec_is_symbol_start(w[0]) && all_cont(w)
}

/// Whether `w` is lexed as a symbol: made of symbol characters, no
/// number, and neither `true` nor `false`.
pub open spec fn symbol_text(w: Seq<char>) -> bool {
    &&& keyword_text(w)
    &&& w != "true"@
    &&& w != "false"@
    &&& !(w[0] == '-' && w.len() > 1 && spec_is_digit(w[1]))
}

/// Whether `w` can stand between double quotes as it is.
pub open spec fn string_text(w: Seq<char>) -> bool {
    forall|j: int| 0 <= j < w.len() ==> #[trigger] w[j] != '"' && w[j] != '\\'
}

/// Blank characters are skipped up to a character that starts a token.
pub proof fn lemma_blank_skip(src: Seq<char>, p: int, n: int)
    requires
        blank(src, p, n),
        p + n < src.len(),
        !spec_is_space(src[p + n]),
        src[p + n] != ';',
    ensures
        skip_trivia(src, p, false) == p + n,
    decreases n,
{
    reveal(holds);
    reveal(blank);
    if n > 0 {
        assert(spec_is_space(src[p]));
        assert(blank(src, p + 1, n - 1));
        lemma_blank_skip(src, p + 1, n - 1);
    }
}

/// Blank characters up to the end of the text are skipped.
pub proof fn lemma_blank_tail(src: Seq<char>, p: int, n: int)
    requires
        blank(src, p, n),
        p + n == src.len(),
    ensures
        skip_trivia(src, p, false) == src.len(),
    decreases n,
{
    reveal(holds);
    reveal(blank);
    if n > 0 {
        assert(spec_is_space(src[p]));
        assert(blank(src, p + 1, n - 1));
        lemma_blank_tail(src, p + 1, n - 1);
    }
}

/// The token of a delimiter or a comma.
pub open spec fn mark(c: char) -> TokenKindView {
    if c == '(' {
        TokenKindView::LParen
    } else if c == ')' {
        TokenKindView::RParen
    } else if c == '[' {
        TokenKindView::LBracket
    } else if c == ']' {
        TokenKindView::RBracket
    } else if c == '{' {
        TokenKindView::LBrace
    } else if c == '}' {
        TokenKindView::RBrace
    } else {
        TokenKindView::Comma
    }
}

pub open spec fn is_mark(c: char) -> bool {
    c == '(' || c == ')' || c == '[' || c == ']' || c == '{' || c == '}' || c == ','
}

pub proof fn lemma_mark(src: Seq<char>, p: int, n: int, c: char)
    requires
        blank(src, p, n),
        p + n < src.len(),
        src[p + n] == c,
        is_mark(c),
    ensures
        token_end(src, p, mark(c)) == p + n + 1,
{
    reveal(holds);
    reveal(blank);
    lemma_blank_skip(src, p, n);
}

pub proof fn lemma_colon(src: Seq<char>, p: int, n: int)
    requires
        blank(src, p, n),
        p + n < src.len(),
        src[p + n] == ':',
        p + n + 1 < src.len() ==> !spec_is_symbol_start(src[p + n + 1]),
    ensures
        token_end(src, p, TokenKindView::Colon) == p + n + 1,
{
    reveal(holds);
    reveal(blank);
    lemma_blank_skip(src, p, n);
    assert(token_at(src, p + n) == colon_at(src, p + n));
}

proof fn lemma_symbol_run(src: Seq<char>, a: int, w: Seq<char>, j: int)
    requires
        holds(src, a, w),
        all_cont(w),
        !cont_at(src, a + w.len()),
        0 <= j <= w.len(),
    ensures
        symbol_run(src, a + j) == w.len() - j,
    decreases w.len() - j,
{
    reveal(holds);
    reveal(blank);
    if j < w.len() {
        assert(src[a + j] == w[j]);
        lemma_symbol_run(src, a, w, j + 1);
    }
}

pub proof fn lemma_symbol(src: Seq<char>, p: int, n: int, w: Seq<char>)
    requires
        blank(src, p, n),
        holds(src, p + n, w),
        symbol_text(w),
        !cont_at(src, p + n + w.len()),
    ensures
        token_end(src, p, TokenKindView::Symbol(w)) == p + n + w.len(),
{
    reveal(holds);
    reveal(blank);
    let a = p + n;
    assert(src[a + 0] == w[0]);
    lemma_blank_skip(src, p, n);
    lemma_symbol_run(src, a, w, 0);
    assert(src.subrange(a, a + w.len()) =~= w);
    if w.len() > 1 {
        assert(src[a + 1] == w[1]);
    }
    assert(token_at(src, a) == symbol_at(src, a));
}

pub proof fn lemma_true(src: Seq<char>, p: int, n: int)
    requires
        blank(src, p, n),
        holds(src, p + n, "true"@),
        !cont_at(src, p + n + 4),
    ensures
        token_end(src, p, TokenKindView::BoolLit(true)) == p + n + 4,
{
    reveal(holds);
    reveal(blank);
    let a = p + n;
    let w = "true"@;
    reveal_strlit("true");
    assert(src[a + 0] == w[0]);
    assert(src[a + 1] == w[1]);
    assert(all_cont(w));
    lemma_blank_skip(src, p, n);
    lemma_symbol_run(src, a, w, 0);
    assert(src.subrange(a, a + w.len()) =~= w);
    assert(token_at(src, a) == symbol_at(src, a));
}

pub proof fn lemma_keyword(src: Seq<char>, p: int, n: int, w: Seq<char>)
    requires
        blank(src, p, n),
        p + n < src.len(),
        src[p + n] == ':',
        holds(src, p + n + 1, w),
        keyword_text(w),
        !cont_at(src, p + n + 1 + w.len()),
    ensures
        token_end(src, p, TokenKindView::Keyword(w)) == p + n + 1 + w.len(),
{
    reveal(holds);
    reveal(blank);
    let a = p + n;
    assert(src[a + 1 + 0] == w[0]);
    lemma_blank_skip(src, p, n);
    lemma_symbol_run(src, a + 1, w, 0);
    assert(src.subrange(a + 1, a + 1 + w.len()) =~= w);
    assert(token_at(src, a) == colon_at(src, a));
}

proof fn lemma_string_rest(src: Seq<char>, a: int, w: Seq<char>, j: int)
    requires
        holds(src, a + 1, w),
        string_text(w),
        a + 1 + w.len() < src.len(),
        src[a + 1 + w.len()] == '"',
        0 <= j <= w.len(),
    ensures
        string_rest(src, a, a + 1 + j, w.subrange(0, j)) == (LexStep::Tok {
            kind: TokenKindView::StringLit(w),
            next: a + w.len() + 2,
        }),
    decreases w.len() - j,
{
    reveal(holds);
    reveal(blank);
    if j < w.len() {
        assert(src[a + 1 + j] == w[j]);
        assert(w.subrange(0, j).push(w[j]) =~= w.subrange(0, j + 1));
        lemma_string_rest(src, a, w, j + 1);
    } else {
        assert(w.subrange(0, j) =~= w);
    }
}

pub proof fn lemma_string(src: Seq<char>, p: int, n: int, w: Seq<char>)
    requires
        blank(src, p, n),
        p + n < src.len(),
        src[p + n] == '"',
        holds(src, p + n + 1, w),
        string_text(w),
        p + n + 1 + w.len() < src.len(),
        src[p + n + 1 + w.len()] == '"',
    ensures
        token_end(src, p, TokenKindView::StringLit(w)) == p + n + w.len() + 2,
{
    reveal(holds);
    reveal(blank);
    let a = p + n;
    lemma_blank_skip(src, p, n);
    lemma_string_rest(src, a, w, 0);
    assert(w.subrange(0, 0) =~= Seq::<char>::empty());
}

/// Whether every character of `w` is a decimal digit.
pub open spec fn all_digits(w: Seq<char>) -> bool {
    forall|j: int| 0 <= j < w.len() ==> spec_is_digit(#[trigger] w[j])
}

/// The decimal rendering of a number is made of digits and has its value.
pub proof fn lemma_dec(v: nat)
    ensures
        dec(v).len() >= 1,
        all_digits(dec(v)),
        digits_val(dec(v), 0, dec(v).len() as int) == v,
    decreases v,
{
    reveal(holds);
    reveal(blank);
    if v < 10 {
        let w = dec(v);
        assert(w[0] == digit_char(v as int));
        assert(digits_val(w, 0, 0) == 0);
        assert(digits_val(w, 0, 1) == digits_val(w, 0, 0) * 10 + (w[0] as u32 - 48) as nat);
    } else {
        lemma_dec(v / 10);
        let front = dec(v / 10);
        let w = dec(v);
        let n = front.len() as int;
        assert(w == front.push(digit_char((v % 10) as int)));
        assert forall|j: int| 0 <= j < w.len() implies spec_is_digit(#[trigger] w[j]) by {
            if j < n {
                assert(w[j] == front[j]);
            }
        }
        lemma_digits_same(front, 0, w, 0, n);
        assert(digits_val(w, 0, n + 1) == digits_val(w, 0, n) * 10 + (w[n] as u32 - 48) as nat);
    }
}

/// The value of digits depends on the digits alone.
pub proof fn lemma_digits_same(a: Seq<char>, p: int, b: Seq<char>, q: int, n: int)
    requires
        0 <= n,
        0 <= p,
        p + n <= a.len(),
        0 <= q,
        q + n <= b.len(),
        forall|j: int| 0 <= j < n ==> #[trigger] a[p + j] == b[q + j],
    ensures
        digits_val(a, p, p + n) == digits_val(b, q, q + n),
    decreases n,
{
    reveal(holds);
    reveal(blank);
    if n > 0 {
        lemma_digits_same(a, p, b, q, n - 1);
        assert(a[p + (n - 1)] == b[q + (n - 1)]);
    }
}

proof fn lemma_digit_run(src: Seq<char>, a: int, w: Seq<char>, j: int)
    requires
        holds(src, a, w),
        all_digits(w),
        a + w.len() < src.len() ==> !spec_is_digit(src[a + w.len()]),
        0 <= j <= w.len(),
    ensures
        digit_run(src, a + j) == w.len() - j,
    decreases w.len() - j,
{
    reveal(holds);
    reveal(blank);
    if j < w.len() {
        assert(src[a + j] == w[j]);
        lemma_digit_run(src, a, w, j + 1);
    }
}

pub proof fn lemma_int(src: Seq<char>, p: int, n: int, v: nat)
    requires
        blank(src, p, n),
        holds(src, p + n, dec(v)),
        v <= i64::MAX,
        !cont_at(src, p + n + dec(v).len()),
    ensures
        token_end(src, p, TokenKindView::IntLit(v as i64)) == p + n + dec(v).len(),
{
    reveal(holds);
    reveal(blank);
    let a = p + n;
    let w = dec(v);
    lemma_dec(v);
    assert(src[a + 0] == w[0]);
    lemma_blank_skip(src, p, n);
    lemma_digit_run(src, a, w, 0);
    assert forall|j: int| 0 <= j < w.len() implies #[trigger] src[a + j] == w[0 + j] by {
        assert(src[a + j] == w[j]);
    }
    lemma_digits_same(src, a, w, 0, w.len() as int);
    let end = a + w.len();
    assert(unit_at(src, end).is_none());
    assert(token_at(src, a) == number_at(src, a));
}

pub proof fn lemma_duration(src: Seq<char>, p: int, n: int, v: nat, u: DurationUnit)
    requires
        blank(src, p, n),
        holds(src, p + n, dec(v) + u.suffix()),
        v <= u64::MAX,
        !cont_at(src, p + n + dec(v).len() + u.suffix().len()),
    ensures
        token_end(src, p, TokenKindView::DurationLit(v as u64, u)) == p + n + dec(v).len()
            + u.suffix().len(),
{
    reveal(holds);
    reveal(blank);
    let a = p + n;
    let w = dec(v);
    let t = w + u.suffix();
    reveal_strlit("ms");
    reveal_strlit("s");
    reveal_strlit("m");
    reveal_strlit("h");
    lemma_dec(v);
    assert(t[0] == w[0]);
    assert(src[a + 0] == t[0]);
    let end = a + w.len();
    assert forall|j: int| 0 <= j < w.len() implies src[a + j] == #[trigger] w[j] by {
        assert(t[j] == w[j]);
    }
    assert(holds(src, a, w));
    assert(t[w.len() as int] == u.suffix()[0]);
    assert(src[a + w.len()] == t[w.len() as int]);
    lemma_blank_skip(src, p, n);
    lemma_digit_run(src, a, w, 0);
    assert forall|j: int| 0 <= j < w.len() implies #[trigger] src[a + j] == w[0 + j] by {
        assert(src[a + j] == w[j]);
    }
    lemma_digits_same(src, a, w, 0, w.len() as int);
    if u == DurationUnit::Ms {
        let k = w.len() as int + 1;
        assert(t[k] == u.suffix()[1]);
        assert(src[a + k] == t[k]);
    }
    assert(unit_at(src, end) == Some((u, u.suffix().len() as int)));
    assert(token_at(src, a) == number_at(src, a));
}

/// The pattern that the text `#/.+@.+\..+/` is lexed as.
pub open spec fn email_pattern() -> Seq<char> {
    ".+@.+\\..+"@
}

pub proof fn lemma_email_regex(src: Seq<char>, p: int, n: int)
    requires
        blank(src, p, n),
        holds(src, p + n, "#/.+@.+\\..+/"@),
    ensures
        token_end(src, p, TokenKindView::RegexLit(email_pattern())) == p + n + 12,
{
    reveal(holds);
    reveal(blank);
    let a = p + n;
    let w = "#/.+@.+\\..+/"@;
    reveal_strlit("#/.+@.+\\..+/");
    reveal_strlit(".+@.+\\..+");
    assert(src[a + 0] == w[0]);
    assert(src[a + 1] == w[1]);
    assert(src[a + 2] == w[2]);
    assert(src[a + 3] == w[3]);
    assert(src[a + 4] == w[4]);
    assert(src[a + 5] == w[5]);
    assert(src[a + 6] == w[6]);
    assert(src[a + 7] == w[7]);
    assert(src[a + 8] == w[8]);
    assert(src[a + 9] == w[9]);
    assert(src[a + 10] == w[10]);
    assert(src[a + 11] == w[11]);
    lemma_blank_skip(src, p, n);
    let e = Seq::<char>::empty();
    let r1 = e.push('.');
    let r2 = r1.push('+');
    let r3 = r2.push('@');
    let r4 = r3.push('.');
    let r5 = r4.push('+');
    let r6 = r5.push('\\').push('.');
    let r7 = r6.push('.');
    let r8 = r7.push('+');
    assert(r8 =~= email_pattern());
    assert(regex_rest(src, a, a + 11, r8) == (LexStep::Tok {
        kind: TokenKindView::RegexLit(r8),
        next: a + 12,
    }));
    assert(regex_rest(src, a, a + 10, r7) == regex_rest(src, a, a + 11, r8));
    assert(regex_rest(src, a, a + 9, r6) == regex_rest(src, a, a + 10, r7));
    assert(regex_rest(src, a, a + 7, r5) == regex_rest(src, a, a + 9, r6));
    assert(regex_rest(src, a, a + 6, r4) == regex_rest(src, a, a + 7, r5));
    assert(regex_rest(src, a, a + 5, r3) == regex_rest(src, a, a + 6, r4));
    assert(regex_rest(src, a, a + 4, r2) == regex_rest(src, a, a + 5, r3));
    assert(regex_rest(src, a, a + 3, r1) == regex_rest(src, a, a + 4, r2));
    assert(regex_rest(src, a, a + 2, e) == regex_rest(src, a, a + 3, r1));
    assert(token_at(src, a) == hash_at(src, a));
}

} // verus!

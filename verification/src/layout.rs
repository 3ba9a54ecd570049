//! Following a text item by item.
//!
//! `lands` tells that a run of forms is written between two places of a
//! text, with nothing but blanks behind the last of them. The step lemmas
//! extend such a run by one word or one container, so that a text can be
//! followed piece by piece in the order in which it was written.

use vstd::prelude::*;
use crate::lexer::{DurationUnit, TokenKindView, skip_trivia, cont_at, spec_is_space};
use crate::parser::AtomView;
use crate::reading::{Form, token_end, read_end, items_end, entries_end, comma_end, colon_end,
    lemma_token_end_bounds, lemma_items_end_sign};
use crate::text::{dec, left};
use crate::words::{holds, blank, symbol_text, keyword_text, email_pattern, mark, is_mark,
    lemma_mark, lemma_symbol, lemma_keyword, lemma_int, lemma_duration, lemma_true,
    lemma_email_regex};

verus! {

pub open spec fn sym(w: Seq<char>) -> Form {
    Form::Atom(AtomView::Symbol(w))
}

pub open spec fn kw(w: Seq<char>) -> Form {
    Form::Atom(AtomView::Keyword(w))
}

pub open spec fn quoted(w: Seq<char>) -> Form {
    Form::Atom(AtomView::StringLit(w))
}

pub open spec fn num(v: nat) -> Form {
    Form::Atom(AtomView::IntLit(v as i64))
}

/// The pairs of a run of forms that holds keys and values in turn.
pub open spec fn pairs(items: Seq<Form>) -> Seq<(Form, Form)> {
    Seq::new(items.len() / 2, |k: int| (items[2 * k], items[2 * k + 1]))
}

/// A map written as `{k v k v}` with the given keys and values in turn.
pub open spec fn plain_map(items: Seq<Form>) -> Form {
    Form::Mapping(pairs(items))
}

/// Whether the forms `items` are written in `src` from `p` on, one after
/// the other, and nothing but blanks stands between the last of them and `q`.
#[verifier::opaque]
pub open spec fn lands(src: Seq<char>, p: int, items: Seq<Form>, q: int) -> bool {
    let e = items_end(src, p, items, 0);
    0 <= p <= e && e <= q && blank(src, e, q - e)
}

pub proof fn lemma_skip_same(src: Seq<char>, p: int, n: int)
    requires
        blank(src, p, n),
    ensures
        skip_trivia(src, p, false) == skip_trivia(src, p + n, false),
    decreases n,
{
    reveal(holds);
    reveal(blank);
    reveal(lands);
    if n > 0 {
        assert(spec_is_space(src[p]));
        assert(blank(src, p + 1, n - 1));
        lemma_skip_same(src, p + 1, n - 1);
    }
}

/// Blanks before a form do not change where it ends.
pub proof fn lemma_read_same(src: Seq<char>, p: int, n: int, f: Form)
    requires
        blank(src, p, n),
    ensures
        read_end(src, p, f) == read_end(src, p + n, f),
{
    reveal(holds);
    reveal(blank);
    reveal(lands);
    lemma_skip_same(src, p, n);
}

pub proof fn lemma_items_same(src: Seq<char>, p: int, n: int, items: Seq<Form>)
    requires
        blank(src, p, n),
        items.len() > 0,
    ensures
        items_end(src, p, items, 0) == items_end(src, p + n, items, 0),
{
    reveal(holds);
    reveal(blank);
    reveal(lands);
    lemma_read_same(src, p, n, items[0]);
}

proof fn lemma_items_shift(src: Seq<char>, p: int, a: Seq<Form>, b: Seq<Form>, j: int)
    requires
        0 <= j <= b.len(),
    ensures
        items_end(src, p, a + b, a.len() + j) == items_end(src, p, b, j),
    decreases b.len() - j,
{
    reveal(holds);
    reveal(blank);
    reveal(lands);
    if j < b.len() {
        assert((a + b)[a.len() + j] == b[j]);
        lemma_items_shift(src, read_end(src, p, b[j]), a, b, j + 1);
    }
}

/// Reading two runs one after the other is reading them joined.
pub proof fn lemma_items_concat(src: Seq<char>, p: int, a: Seq<Form>, b: Seq<Form>, i: int)
    requires
        0 <= i <= a.len(),
    ensures
        items_end(src, p, a + b, i) == items_end(src, items_end(src, p, a, i), b, 0),
    decreases a.len() - i,
{
    reveal(holds);
    reveal(blank);
    reveal(lands);
    if i < a.len() {
        assert((a + b)[i] == a[i]);
        lemma_items_concat(src, read_end(src, p, a[i]), a, b, i + 1);
    } else {
        lemma_items_shift(src, p, a, b, 0);
    }
}

pub proof fn lemma_items_bound(src: Seq<char>, p: int, items: Seq<Form>, i: int)
    requires
        0 <= i <= items.len(),
        0 <= p <= src.len(),
        items_end(src, p, items, i) >= 0,
    ensures
        p <= items_end(src, p, items, i) <= src.len(),
    decreases items, left(items.len(), i),
{
    reveal(holds);
    reveal(blank);
    reveal(lands);
    if i < items.len() {
        let q = read_end(src, p, items[i]);
        lemma_items_end_sign(src, q, items, i + 1);
        lemma_read_bound(src, p, items[i]);
        lemma_items_bound(src, q, items, i + 1);
    }
}

pub proof fn lemma_read_bound(src: Seq<char>, p: int, f: Form)
    requires
        read_end(src, p, f) >= 0,
    ensures
        0 <= p < read_end(src, p, f) <= src.len(),
    decreases f, 0nat,
{
    reveal(holds);
    reveal(blank);
    reveal(lands);
    match f {
        Form::Atom(a) => {
            lemma_token_end_bounds(src, p, crate::reading::atom_kind(a));
        },
        Form::List(items) => {
            let a = token_end(src, p, TokenKindView::LParen);
            let b = items_end(src, a, items, 0);
            lemma_token_end_bounds(src, b, TokenKindView::RParen);
            lemma_items_end_sign(src, a, items, 0);
            lemma_token_end_bounds(src, p, TokenKindView::LParen);
            lemma_items_bound(src, a, items, 0);
        },
        Form::Vector(items) => {
            let a = token_end(src, p, TokenKindView::LBracket);
            let b = items_end(src, a, items, 0);
            lemma_token_end_bounds(src, b, TokenKindView::RBracket);
            lemma_items_end_sign(src, a, items, 0);
            lemma_token_end_bounds(src, p, TokenKindView::LBracket);
            lemma_items_bound(src, a, items, 0);
        },
        Form::Mapping(entries) => {
            let a = token_end(src, p, TokenKindView::LBrace);
            let b = entries_end(src, a, entries, 0, false);
            lemma_token_end_bounds(src, b, TokenKindView::RBrace);
            crate::reading::lemma_entries_end_sign(src, a, entries, 0, false);
            lemma_token_end_bounds(src, p, TokenKindView::LBrace);
            lemma_entries_bound(src, a, entries, 0, false);
        },
        Form::Record(entries) => {
            let a = token_end(src, p, TokenKindView::LBrace);
            let b = entries_end(src, a, entries, 0, true);
            lemma_token_end_bounds(src, b, TokenKindView::RBrace);
            crate::reading::lemma_entries_end_sign(src, a, entries, 0, true);
            lemma_token_end_bounds(src, p, TokenKindView::LBrace);
            lemma_entries_bound(src, a, entries, 0, true);
        },
    }
}

pub proof fn lemma_entries_bound(
    src: Seq<char>,
    p: int,
    entries: Seq<(Form, Form)>,
    i: int,
    dressed: bool,
)
    requires
        0 <= i <= entries.len(),
        0 <= p <= src.len(),
        entries_end(src, p, entries, i, dressed) >= 0,
    ensures
        p <= entries_end(src, p, entries, i, dressed) <= src.len(),
    decreases entries, left(entries.len(), i),
{
    reveal(holds);
    reveal(blank);
    reveal(lands);
    if i < entries.len() {
        let b = read_end(src, p, entries[i].0);
        let c = colon_end(src, b, dressed);
        let d = read_end(src, c, entries[i].1);
        let e = comma_end(src, d, i + 1 < entries.len(), dressed);
        crate::reading::lemma_entries_end_sign(src, e, entries, i + 1, dressed);
        if dressed && i + 1 < entries.len() {
            lemma_token_end_bounds(src, d, TokenKindView::Comma);
        }
        lemma_read_bound(src, c, entries[i].1);
        if dressed {
            lemma_token_end_bounds(src, b, TokenKindView::Colon);
        }
        lemma_read_bound(src, p, entries[i].0);
        lemma_entries_bound(src, e, entries, i + 1, dressed);
    }
}

pub proof fn lemma_lands_start(src: Seq<char>, p: int)
    requires
        0 <= p <= src.len(),
    ensures
        lands(src, p, Seq::empty(), p),
{
    reveal(holds);
    reveal(blank);
    reveal(lands);
}

pub proof fn lemma_lands_blank(src: Seq<char>, p: int, a: Seq<Form>, q: int, n: int)
    requires
        lands(src, p, a, q),
        blank(src, q, n),
    ensures
        lands(src, p, a, q + n),
{
    reveal(holds);
    reveal(blank);
    reveal(lands);
}

/// Two runs that are written one behind the other are written as one.
pub proof fn lemma_lands_join(
    src: Seq<char>,
    p: int,
    a: Seq<Form>,
    q: int,
    b: Seq<Form>,
    r: int,
)
    requires
        lands(src, p, a, q),
        lands(src, q, b, r),
    ensures
        lands(src, p, a + b, r),
{
    reveal(holds);
    reveal(blank);
    reveal(lands);
    let e = items_end(src, p, a, 0);
    lemma_items_concat(src, p, a, b, 0);
    if b.len() > 0 {
        lemma_items_same(src, e, q - e, b);
    } else {
        let f = items_end(src, q, b, 0);
        assert(f == q);
    }
}

/// A run followed by one more form.
pub proof fn lemma_lands_push(src: Seq<char>, p: int, a: Seq<Form>, q: int, f: Form, r: int)
    requires
        lands(src, p, a, q),
        read_end(src, q, f) == r,
        r >= 0,
    ensures
        lands(src, p, a.push(f), r),
{
    reveal(holds);
    reveal(blank);
    reveal(lands);
    let one = seq![f];
    lemma_read_bound(src, q, f);
    assert(items_end(src, r, one, 1) == r);
    assert(one[0] == f);
    assert(items_end(src, q, one, 0) == r);
    assert(lands(src, q, one, r));
    lemma_lands_join(src, p, a, q, one, r);
    assert(a.push(f) =~= a + one);
}

pub proof fn step_symbol(src: Seq<char>, p: int, a: Seq<Form>, q: int, n: int, w: Seq<char>)
    requires
        lands(src, p, a, q),
        blank(src, q, n),
        holds(src, q + n, w),
        symbol_text(w),
        !cont_at(src, q + n + w.len()),
    ensures
        lands(src, p, a.push(sym(w)), q + n + w.len()),
{
    reveal(holds);
    reveal(blank);
    reveal(lands);
    lemma_symbol(src, q, n, w);
    lemma_lands_push(src, p, a, q, sym(w), q + n + w.len());
}

pub proof fn step_keyword(src: Seq<char>, p: int, a: Seq<Form>, q: int, n: int, w: Seq<char>)
    requires
        lands(src, p, a, q),
        blank(src, q, n),
        q + n < src.len(),
        src[q + n] == ':',
        holds(src, q + n + 1, w),
        keyword_text(w),
        !cont_at(src, q + n + 1 + w.len()),
    ensures
        lands(src, p, a.push(kw(w)), q + n + 1 + w.len()),
{
    reveal(holds);
    reveal(blank);
    reveal(lands);
    lemma_keyword(src, q, n, w);
    lemma_lands_push(src, p, a, q, kw(w), q + n + 1 + w.len());
}

pub proof fn step_int(src: Seq<char>, p: int, a: Seq<Form>, q: int, n: int, v: nat)
    requires
        lands(src, p, a, q),
        blank(src, q, n),
        holds(src, q + n, dec(v)),
        v <= i64::MAX,
        !cont_at(src, q + n + dec(v).len()),
    ensures
        lands(src, p, a.push(num(v)), q + n + dec(v).len()),
{
    reveal(holds);
    reveal(blank);
    reveal(lands);
    lemma_int(src, q, n, v);
    lemma_lands_push(src, p, a, q, num(v), q + n + dec(v).len());
}

pub proof fn step_duration(
    src: Seq<char>,
    p: int,
    a: Seq<Form>,
    q: int,
    n: int,
    v: nat,
    u: DurationUnit,
)
    requires
        lands(src, p, a, q),
        blank(src, q, n),
        holds(src, q + n, dec(v) + u.suffix()),
        v <= u64::MAX,
        !cont_at(src, q + n + dec(v).len() + u.suffix().len()),
    ensures
        lands(
            src,
            p,
            a.push(Form::Atom(AtomView::DurationLit(v as u64, u))),
            q + n + dec(v).len() + u.suffix().len(),
        ),
{
    reveal(holds);
    reveal(blank);
    reveal(lands);
    lemma_duration(src, q, n, v, u);
    lemma_lands_push(
        src,
        p,
        a,
        q,
        Form::Atom(AtomView::DurationLit(v as u64, u)),
        q + n + dec(v).len() + u.suffix().len(),
    );
}

pub proof fn step_true(src: Seq<char>, p: int, a: Seq<Form>, q: int, n: int)
    requires
        lands(src, p, a, q),
        blank(src, q, n),
        holds(src, q + n, "true"@),
        !cont_at(src, q + n + 4),
    ensures
        lands(src, p, a.push(Form::Atom(AtomView::BoolLit(true))), q + n + 4),
{
    reveal(holds);
    reveal(blank);
    reveal(lands);
    lemma_true(src, q, n);
    lemma_lands_push(src, p, a, q, Form::Atom(AtomView::BoolLit(true)), q + n + 4);
}

pub proof fn step_email_regex(src: Seq<char>, p: int, a: Seq<Form>, q: int, n: int)
    requires
        lands(src, p, a, q),
        blank(src, q, n),
        holds(src, q + n, "#/.+@.+\\..+/"@),
    ensures
        lands(src, p, a.push(Form::Atom(AtomView::RegexLit(email_pattern()))), q + n + 12),
{
    reveal(holds);
    reveal(blank);
    reveal(lands);
    lemma_email_regex(src, q, n);
    lemma_lands_push(src, p, a, q, Form::Atom(AtomView::RegexLit(email_pattern())), q + n + 12);
}

/// Where a container ends whose opening mark stands behind `n` blanks at
/// `q` and whose items land at `r`, where its closing mark stands.
proof fn lemma_wrap(src: Seq<char>, q: int, n: int, inner: Seq<Form>, r: int, open: char, close: char)
    requires
        blank(src, q, n),
        q + n < src.len(),
        src[q + n] == open,
        lands(src, q + n + 1, inner, r),
        r < src.len(),
        src[r] == close,
        is_mark(open),
        is_mark(close),
    ensures
        token_end(src, q, mark(open)) == q + n + 1,
        token_end(src, items_end(src, q + n + 1, inner, 0), mark(close)) == r + 1,
{
    reveal(holds);
    reveal(blank);
    reveal(lands);
    lemma_mark(src, q, n, open);
    let e = items_end(src, q + n + 1, inner, 0);
    lemma_mark(src, e, r - e, close);
}

pub proof fn step_list(
    src: Seq<char>,
    p: int,
    a: Seq<Form>,
    q: int,
    n: int,
    inner: Seq<Form>,
    r: int,
)
    requires
        lands(src, p, a, q),
        blank(src, q, n),
        q + n < src.len(),
        src[q + n] == '(',
        lands(src, q + n + 1, inner, r),
        r < src.len(),
        src[r] == ')',
    ensures
        lands(src, p, a.push(Form::List(inner)), r + 1),
{
    reveal(holds);
    reveal(blank);
    reveal(lands);
    lemma_wrap(src, q, n, inner, r, '(', ')');
    lemma_lands_push(src, p, a, q, Form::List(inner), r + 1);
}

pub proof fn step_vector(
    src: Seq<char>,
    p: int,
    a: Seq<Form>,
    q: int,
    n: int,
    inner: Seq<Form>,
    r: int,
)
    requires
        lands(src, p, a, q),
        blank(src, q, n),
        q + n < src.len(),
        src[q + n] == '[',
        lands(src, q + n + 1, inner, r),
        r < src.len(),
        src[r] == ']',
    ensures
        lands(src, p, a.push(Form::Vector(inner)), r + 1),
{
    reveal(holds);
    reveal(blank);
    reveal(lands);
    lemma_wrap(src, q, n, inner, r, '[', ']');
    lemma_lands_push(src, p, a, q, Form::Vector(inner), r + 1);
}

/// The entries of a plain map are read as its keys and values in turn.
pub proof fn lemma_pairs_end(src: Seq<char>, p: int, items: Seq<Form>, i: int)
    requires
        items.len() % 2 == 0,
        0 <= i <= items.len() / 2,
    ensures
        entries_end(src, p, pairs(items), i, false) == items_end(src, p, items, 2 * i),
    decreases items.len() / 2 - i,
{
    reveal(holds);
    reveal(blank);
    reveal(lands);
    let es = pairs(items);
    if i < items.len() / 2 {
        assert(es[i] == (items[2 * i], items[2 * i + 1]));
        let b = read_end(src, p, items[2 * i]);
        let d = read_end(src, b, items[2 * i + 1]);
        assert(items_end(src, p, items, 2 * i) == items_end(src, b, items, 2 * i + 1));
        assert(items_end(src, b, items, 2 * i + 1) == items_end(src, d, items, 2 * i + 2));
        lemma_pairs_end(src, d, items, i + 1);
    }
}

pub proof fn step_map(
    src: Seq<char>,
    p: int,
    a: Seq<Form>,
    q: int,
    n: int,
    inner: Seq<Form>,
    r: int,
)
    requires
        lands(src, p, a, q),
        blank(src, q, n),
        q + n < src.len(),
        src[q + n] == '{',
        lands(src, q + n + 1, inner, r),
        inner.len() % 2 == 0,
        r < src.len(),
        src[r] == '}',
    ensures
        lands(src, p, a.push(plain_map(inner)), r + 1),
{
    reveal(holds);
    reveal(blank);
    reveal(lands);
    lemma_wrap(src, q, n, inner, r, '{', '}');
    lemma_pairs_end(src, q + n + 1, inner, 0);
    lemma_lands_push(src, p, a, q, plain_map(inner), r + 1);
}

/// A word that stands inside a word that stands in the text.
pub proof fn lemma_holds_sub(src: Seq<char>, b: int, l: Seq<char>, k: int, w: Seq<char>)
    requires
        holds(src, b, l),
        0 <= k,
        k + w.len() <= l.len(),
        l.subrange(k, k + w.len()) == w,
    ensures
        holds(src, b + k, w),
{
    reveal(holds);
    reveal(blank);
    reveal(lands);
    assert forall|j: int| 0 <= j < w.len() implies src[b + k + j] == #[trigger] w[j] by {
        assert(l.subrange(k, k + w.len())[j] == l[k + j]);
        assert(src[b + (k + j)] == l[k + j]);
    }
}

/// Blanks inside a word that stands in the text.
pub proof fn lemma_blank_sub(src: Seq<char>, b: int, l: Seq<char>, k: int, n: int)
    requires
        holds(src, b, l),
        0 <= k,
        0 <= n,
        k + n <= l.len(),
        forall|j: int| k <= j < k + n ==> spec_is_space(#[trigger] l[j]),
    ensures
        blank(src, b + k, n),
{
    reveal(holds);
    reveal(blank);
    reveal(lands);
    assert forall|j: int| b + k <= j < b + k + n implies spec_is_space(#[trigger] src[j]) by {
        assert(spec_is_space(l[j - b]));
        assert(src[b + (j - b)] == l[j - b]);
    }
}

/// Two words that stand one behind the other stand there as one.
pub proof fn lemma_holds_join(src: Seq<char>, b: int, u: Seq<char>, v: Seq<char>)
    requires
        holds(src, b, u),
        holds(src, b + u.len(), v),
    ensures
        holds(src, b, u + v),
{
    reveal(holds);
    reveal(blank);
    reveal(lands);
    let t = u + v;
    assert forall|j: int| 0 <= j < t.len() implies src[b + j] == #[trigger] t[j] by {
        if j < u.len() {
            assert(t[j] == u[j]);
        } else {
            assert(t[j] == v[j - u.len()]);
            assert(src[b + u.len() + (j - u.len())] == v[j - u.len()]);
        }
    }
}

/// Blanks behind blanks.
pub proof fn lemma_blank_join(src: Seq<char>, q: int, n: int, m: int)
    requires
        blank(src, q, n),
        blank(src, q + n, m),
    ensures
        blank(src, q, n + m),
{
    reveal(holds);
    reveal(blank);
    reveal(lands);
}

/// The decimal rendering of a digit is the digit.
pub proof fn lemma_digit_text(v: nat)
    requires
        v < 10,
    ensures
        dec(v) == seq![crate::text::digit_char(v as int)],
        v == 0 ==> dec(v) == "0"@,
        v == 1 ==> dec(v) == "1"@,
{
    reveal(holds);
    reveal(blank);
    reveal(lands);
    reveal_strlit("0");
    reveal_strlit("1");
    assert(dec(0) =~= "0"@);
    assert(dec(1) =~= "1"@);
}

/// One entry of a record of quoted values, with the comma behind it
/// where another entry follows.
pub proof fn lemma_record_entry(
    src: Seq<char>,
    x: int,
    entries: Seq<(Form, Form)>,
    i: int,
    k: Seq<char>,
    v: Seq<char>,
    key_end: int,
    colon_at: int,
    value_end: int,
    next: int,
)
    requires
        0 <= i < entries.len(),
        entries[i] == (sym(k), quoted(v)),
        token_end(src, x, TokenKindView::Symbol(k)) == key_end,
        token_end(src, key_end, TokenKindView::Colon) == colon_at,
        token_end(src, colon_at, TokenKindView::StringLit(v)) == value_end,
        i + 1 < entries.len() ==> token_end(src, value_end, TokenKindView::Comma) == next,
        i + 1 >= entries.len() ==> next == value_end,
    ensures
        entries_end(src, x, entries, i, true) == entries_end(src, next, entries, i + 1, true),
{
    assert(read_end(src, x, entries[i].0) == key_end);
    assert(colon_end(src, key_end, true) == colon_at);
    assert(read_end(src, colon_at, entries[i].1) == value_end);
    assert(comma_end(src, value_end, i + 1 < entries.len(), true) == next);
}

pub proof fn lemma_record_done(src: Seq<char>, x: int, entries: Seq<(Form, Form)>)
    ensures
        entries_end(src, x, entries, entries.len() as int, true) == x,
{
}

/// A record, from its opening brace to its closing brace.
pub proof fn step_record(
    src: Seq<char>,
    p: int,
    a: Seq<Form>,
    q: int,
    entries: Seq<(Form, Form)>,
    open: int,
    last: int,
    close: int,
)
    requires
        lands(src, p, a, q),
        token_end(src, q, TokenKindView::LBrace) == open,
        entries_end(src, open, entries, 0, true) == last,
        token_end(src, last, TokenKindView::RBrace) == close,
        close >= 0,
    ensures
        lands(src, p, a.push(Form::Record(entries)), close),
{
    lemma_lands_push(src, p, a, q, Form::Record(entries), close);
}

pub proof fn lemma_blank_zero(src: Seq<char>, q: int)
    requires
        0 <= q <= src.len(),
    ensures
        blank(src, q, 0),
{
    reveal(blank);
}

pub proof fn lemma_holds_bounds(src: Seq<char>, b: int, w: Seq<char>)
    requires
        holds(src, b, w),
    ensures
        0 <= b,
        b + w.len() <= src.len(),
{
    reveal(holds);
}

/// A text that stands in the source, cut in two.
pub proof fn lemma_holds_split(src: Seq<char>, x: int, u: Seq<char>, l: Seq<char>)
    requires
        holds(src, x, u + l),
    ensures
        holds(src, x, u),
        holds(src, x + u.len(), l),
{
    reveal(holds);
    let t = u + l;
    assert forall|j: int| 0 <= j < l.len() implies src[x + u.len() + j] == #[trigger] l[j] by {
        assert(t[u.len() + j] == l[j]);
        assert(src[x + (u.len() + j)] == t[u.len() + j]);
    }
    assert forall|j: int| 0 <= j < u.len() implies src[x + j] == #[trigger] u[j] by {
        assert(t[j] == u[j]);
        assert(src[x + j] == t[j]);
    }
}

/// One blank character that stands in the text.
pub proof fn lemma_blank_char(src: Seq<char>, b: int, l: Seq<char>)
    requires
        holds(src, b, l),
        l == " "@ || l == "\n"@,
    ensures
        blank(src, b, 1),
        l.len() == 1,
{
    reveal(holds);
    reveal(blank);
    reveal_strlit(" ");
    reveal_strlit("\n");
    assert(src[b + 0] == l[0]);
}

/// The first character of a word that stands in the text.
pub proof fn lemma_first_char(src: Seq<char>, b: int, l: Seq<char>)
    requires
        holds(src, b, l),
        l.len() > 0,
    ensures
        0 <= b < src.len(),
        src[b] == l[0],
{
    reveal(holds);
    assert(src[b + 0] == l[0]);
}

} // verus!

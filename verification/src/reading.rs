//! Reading a text against a form.
//!
//! A form is a tree of atoms and containers with the way its maps are
//! written. `read_end` walks a text with the lexer's own steps and tells
//! where the form ends in it; whatever layout the text has between its
//! tokens, a text that holds one form lexes and reads as one tree of that
//! shape (`lemma_reads_form`).

use vstd::prelude::*;
use crate::lexer::{TokenKindView, TokenView, LexOutcome, LexStep, boff, lex, lex_from, skip_trivia,
    token_at, lemma_token_at_advances, lemma_skip_trivia_bounds};
use crate::parser::{AtomView, SExprView, ParseOutcome, ParseStep, ItemsStep, EntriesStep, kind_at,
    parse, parse_from, parse_expr, parse_items, parse_entries, skip_sep, atom_of};
use crate::roundtrip::{Shape, shape, shapes, pair_shapes};
use crate::text::left;

verus! {

/// A tree as it is written.
pub ghost enum Form {
    Atom(AtomView),
    List(Seq<Form>),
    Vector(Seq<Form>),
    /// A map written as `{k v k v}`.
    Mapping(Seq<(Form, Form)>),
    /// A map written as `{k: v, k: v}`.
    Record(Seq<(Form, Form)>),
}

/// The shape of the tree that a form stands for.
pub open spec fn to_shape(f: Form) -> Shape
    decreases f, 0nat,
{
    match f {
        Form::Atom(a) => Shape::Atom(a),
        Form::List(items) => Shape::List(to_shapes(items)),
        Form::Vector(items) => Shape::Vector(to_shapes(items)),
        Form::Mapping(entries) => Shape::Mapping(to_pair_shapes(entries)),
        Form::Record(entries) => Shape::Mapping(to_pair_shapes(entries)),
    }
}

pub open spec fn to_shapes(items: Seq<Form>) -> Seq<Shape>
    decreases items, 1nat,
{
    Seq::new(
        items.len(),
        |i: int|
            if 0 <= i < items.len() {
                to_shape(items[i])
            } else {
                arbitrary()
            },
    )
}

pub open spec fn to_pair_shapes(entries: Seq<(Form, Form)>) -> Seq<(Shape, Shape)>
    decreases entries, 1nat,
{
    Seq::new(
        entries.len(),
        |i: int|
            if 0 <= i < entries.len() {
                (to_shape(entries[i].0), to_shape(entries[i].1))
            } else {
                arbitrary()
            },
    )
}

/// The token of an atom.
pub open spec fn atom_kind(a: AtomView) -> TokenKindView {
    match a {
        AtomView::Symbol(s) => TokenKindView::Symbol(s),
        AtomView::Keyword(s) => TokenKindView::Keyword(s),
        AtomView::StringLit(s) => TokenKindView::StringLit(s),
        AtomView::IntLit(n) => TokenKindView::IntLit(n),
        AtomView::BoolLit(b) => TokenKindView::BoolLit(b),
        AtomView::DurationLit(n, u) => TokenKindView::DurationLit(n, u),
        AtomView::RegexLit(s) => TokenKindView::RegexLit(s),
    }
}

/// The tokens of a form, in order.
pub open spec fn kinds(f: Form) -> Seq<TokenKindView>
    decreases f, 0nat,
{
    match f {
        Form::Atom(a) => seq![atom_kind(a)],
        Form::List(items) => seq![TokenKindView::LParen] + item_kinds(items, 0)
            + seq![TokenKindView::RParen],
        Form::Vector(items) => seq![TokenKindView::LBracket] + item_kinds(items, 0)
            + seq![TokenKindView::RBracket],
        Form::Mapping(entries) => seq![TokenKindView::LBrace] + entry_kinds(entries, 0, false)
            + seq![TokenKindView::RBrace],
        Form::Record(entries) => seq![TokenKindView::LBrace] + entry_kinds(entries, 0, true)
            + seq![TokenKindView::RBrace],
    }
}

/// The tokens of the items from `i` on.
pub open spec fn item_kinds(items: Seq<Form>, i: int) -> Seq<TokenKindView>
    decreases items, left(items.len(), i),
{
    if 0 <= i < items.len() {
        kinds(items[i]) + item_kinds(items, i + 1)
    } else {
        Seq::empty()
    }
}

/// The separator behind an entry of a map; `more` tells that another
/// entry follows.
pub open spec fn comma(more: bool, dressed: bool) -> Seq<TokenKindView> {
    if dressed && more {
        seq![TokenKindView::Comma]
    } else {
        Seq::empty()
    }
}

/// The separator between a key and its value.
pub open spec fn colon(dressed: bool) -> Seq<TokenKindView> {
    if dressed {
        seq![TokenKindView::Colon]
    } else {
        Seq::empty()
    }
}

/// The tokens of the entries from `i` on; `dressed` tells that a colon
/// follows each key and a comma each entry but the last.
pub open spec fn entry_kinds(entries: Seq<(Form, Form)>, i: int, dressed: bool) -> Seq<TokenKindView>
    decreases entries, left(entries.len(), i),
{
    if 0 <= i < entries.len() {
        kinds(entries[i].0) + colon(dressed) + kinds(entries[i].1) + comma(
            i + 1 < entries.len(),
            dressed,
        ) + entry_kinds(entries, i + 1, dressed)
    } else {
        Seq::empty()
    }
}

/// Where the token of kind `k` ends that is the next one from `p` on, or -1
/// where the next token is another, or none.
pub open spec fn token_end(src: Seq<char>, p: int, k: TokenKindView) -> int {
    let a = skip_trivia(src, p, false);
    if 0 <= p && a < src.len() {
        match token_at(src, a) {
            LexStep::Tok { kind, next } => if kind == k {
                next
            } else {
                -1
            },
            LexStep::Fail { .. } => -1,
        }
    } else {
        -1
    }
}

/// Where the form `f` ends that is written from `p` on, or -1 where the
/// text from `p` on does not start with it.
pub open spec fn read_end(src: Seq<char>, p: int, f: Form) -> int
    decreases f, 0nat,
{
    match f {
        Form::Atom(a) => token_end(src, p, atom_kind(a)),
        Form::List(items) => token_end(
            src,
            items_end(src, token_end(src, p, TokenKindView::LParen), items, 0),
            TokenKindView::RParen,
        ),
        Form::Vector(items) => token_end(
            src,
            items_end(src, token_end(src, p, TokenKindView::LBracket), items, 0),
            TokenKindView::RBracket,
        ),
        Form::Mapping(entries) => token_end(
            src,
            entries_end(src, token_end(src, p, TokenKindView::LBrace), entries, 0, false),
            TokenKindView::RBrace,
        ),
        Form::Record(entries) => token_end(
            src,
            entries_end(src, token_end(src, p, TokenKindView::LBrace), entries, 0, true),
            TokenKindView::RBrace,
        ),
    }
}

/// Where the items from `i` on end that are written from `p` on, or -1.
pub open spec fn items_end(src: Seq<char>, p: int, items: Seq<Form>, i: int) -> int
    decreases items, left(items.len(), i),
{
    if 0 <= i < items.len() {
        items_end(src, read_end(src, p, items[i]), items, i + 1)
    } else {
        p
    }
}

/// `p`, or where the comma ends that follows an entry of a dressed map
/// with `more` entries behind it.
pub open spec fn comma_end(src: Seq<char>, p: int, more: bool, dressed: bool) -> int {
    if dressed && more {
        token_end(src, p, TokenKindView::Comma)
    } else {
        p
    }
}

/// `p`, or where the colon of a dressed map ends.
pub open spec fn colon_end(src: Seq<char>, p: int, dressed: bool) -> int {
    if dressed {
        token_end(src, p, TokenKindView::Colon)
    } else {
        p
    }
}

/// Where the entries from `i` on end that are written from `p` on, or -1.
pub open spec fn entries_end(
    src: Seq<char>,
    p: int,
    entries: Seq<(Form, Form)>,
    i: int,
    dressed: bool,
) -> int
    decreases entries, left(entries.len(), i),
{
    if 0 <= i < entries.len() {
        entries_end(
            src,
            comma_end(
                src,
                read_end(src, colon_end(src, read_end(src, p, entries[i].0), dressed), entries[i].1),
                i + 1 < entries.len(),
                dressed,
            ),
            entries,
            i + 1,
            dressed,
        )
    } else {
        p
    }
}

/// Whether lexing `src` from `p` on gives the tokens `ks[i..]` and stands
/// at `q` after the last of them.
pub open spec fn scans(src: Seq<char>, p: int, ks: Seq<TokenKindView>, i: int, q: int) -> bool
    decreases left(ks.len(), i),
{
    if 0 <= i < ks.len() {
        let n = token_end(src, p, ks[i]);
        n >= 0 && scans(src, n, ks, i + 1, q)
    } else {
        p == q && 0 <= p
    }
}

pub proof fn lemma_token_end_bounds(src: Seq<char>, p: int, k: TokenKindView)
    requires
        token_end(src, p, k) >= 0,
    ensures
        0 <= p < token_end(src, p, k) <= src.len(),
{
    lemma_skip_trivia_bounds(src, p, false);
    lemma_token_at_advances(src, skip_trivia(src, p, false));
}

/// Tokens scanned one after the other are scanned together.
proof fn lemma_scans_join(
    src: Seq<char>,
    p: int,
    a: Seq<TokenKindView>,
    i: int,
    q: int,
    b: Seq<TokenKindView>,
    r: int,
)
    requires
        0 <= i <= a.len(),
        scans(src, p, a, i, q),
        scans(src, q, b, 0, r),
    ensures
        scans(src, p, a + b, i, r),
    decreases a.len() - i,
{
    if i < a.len() {
        assert((a + b)[i] == a[i]);
        lemma_scans_join(src, token_end(src, p, a[i]), a, i + 1, q, b, r);
    } else {
        lemma_scans_shift(src, q, a, b, 0, r);
    }
}

proof fn lemma_scans_shift(
    src: Seq<char>,
    p: int,
    a: Seq<TokenKindView>,
    b: Seq<TokenKindView>,
    j: int,
    r: int,
)
    requires
        0 <= j <= b.len(),
        scans(src, p, b, j, r),
    ensures
        scans(src, p, a + b, a.len() + j, r),
    decreases b.len() - j,
{
    if j < b.len() {
        assert((a + b)[a.len() + j] == b[j]);
        lemma_scans_shift(src, token_end(src, p, b[j]), a, b, j + 1, r);
    }
}

proof fn lemma_scans_one(src: Seq<char>, p: int, k: TokenKindView)
    requires
        token_end(src, p, k) >= 0,
    ensures
        scans(src, p, seq![k], 0, token_end(src, p, k)),
{
    let ks = seq![k];
    assert(ks[0] == k);
    assert(scans(src, token_end(src, p, k), ks, 1, token_end(src, p, k)));
}

/// A form that is written from `p` on is scanned as its tokens.
proof fn lemma_scans_form(src: Seq<char>, p: int, f: Form)
    requires
        read_end(src, p, f) >= 0,
    ensures
        scans(src, p, kinds(f), 0, read_end(src, p, f)),
        p >= 0,
    decreases f, 0nat,
{
    match f {
        Form::Atom(a) => {
            lemma_token_end_bounds(src, p, atom_kind(a));
            lemma_scans_one(src, p, atom_kind(a));
        },
        Form::List(items) => {
            let open = TokenKindView::LParen;
            let close = TokenKindView::RParen;
            let a = token_end(src, p, open);
            let b = items_end(src, a, items, 0);
            lemma_token_end_bounds(src, b, close);
            lemma_items_end_sign(src, a, items, 0);
            lemma_token_end_bounds(src, p, open);
            lemma_scans_one(src, p, open);
            lemma_scans_items(src, a, items, 0);
            lemma_scans_one(src, b, close);
            lemma_scans_join(src, p, seq![open], 0, a, item_kinds(items, 0), b);
            lemma_scans_join(
                src,
                p,
                seq![open] + item_kinds(items, 0),
                0,
                b,
                seq![close],
                token_end(src, b, close),
            );
        },
        Form::Vector(items) => {
            let open = TokenKindView::LBracket;
            let close = TokenKindView::RBracket;
            let a = token_end(src, p, open);
            let b = items_end(src, a, items, 0);
            lemma_token_end_bounds(src, b, close);
            lemma_items_end_sign(src, a, items, 0);
            lemma_token_end_bounds(src, p, open);
            lemma_scans_one(src, p, open);
            lemma_scans_items(src, a, items, 0);
            lemma_scans_one(src, b, close);
            lemma_scans_join(src, p, seq![open], 0, a, item_kinds(items, 0), b);
            lemma_scans_join(
                src,
                p,
                seq![open] + item_kinds(items, 0),
                0,
                b,
                seq![close],
                token_end(src, b, close),
            );
        },
        Form::Mapping(entries) => {
            let open = TokenKindView::LBrace;
            let close = TokenKindView::RBrace;
            let a = token_end(src, p, open);
            let b = entries_end(src, a, entries, 0, false);
            lemma_token_end_bounds(src, b, close);
            lemma_entries_end_sign(src, a, entries, 0, false);
            lemma_token_end_bounds(src, p, open);
            lemma_scans_one(src, p, open);
            lemma_scans_entries(src, a, entries, 0, false);
            lemma_scans_one(src, b, close);
            lemma_scans_join(src, p, seq![open], 0, a, entry_kinds(entries, 0, false), b);
            lemma_scans_join(
                src,
                p,
                seq![open] + entry_kinds(entries, 0, false),
                0,
                b,
                seq![close],
                token_end(src, b, close),
            );
        },
        Form::Record(entries) => {
            let open = TokenKindView::LBrace;
            let close = TokenKindView::RBrace;
            let a = token_end(src, p, open);
            let b = entries_end(src, a, entries, 0, true);
            lemma_token_end_bounds(src, b, close);
            lemma_entries_end_sign(src, a, entries, 0, true);
            lemma_token_end_bounds(src, p, open);
            lemma_scans_one(src, p, open);
            lemma_scans_entries(src, a, entries, 0, true);
            lemma_scans_one(src, b, close);
            lemma_scans_join(src, p, seq![open], 0, a, entry_kinds(entries, 0, true), b);
            lemma_scans_join(
                src,
                p,
                seq![open] + entry_kinds(entries, 0, true),
                0,
                b,
                seq![close],
                token_end(src, b, close),
            );
        },
    }
}

/// Reading never recovers: where the items end, they started.
pub proof fn lemma_items_end_sign(src: Seq<char>, p: int, items: Seq<Form>, i: int)
    requires
        0 <= i <= items.len(),
        items_end(src, p, items, i) >= 0,
    ensures
        p >= 0,
    decreases items, left(items.len(), i),
{
    if i < items.len() {
        lemma_items_end_sign(src, read_end(src, p, items[i]), items, i + 1);
        lemma_read_end_sign(src, p, items[i]);
    }
}

pub proof fn lemma_read_end_sign(src: Seq<char>, p: int, f: Form)
    requires
        read_end(src, p, f) >= 0,
    ensures
        p >= 0,
    decreases f, 0nat,
{
    match f {
        Form::Atom(a) => {},
        Form::List(items) => {
            let a = token_end(src, p, TokenKindView::LParen);
            lemma_items_end_sign(src, a, items, 0);
        },
        Form::Vector(items) => {
            let a = token_end(src, p, TokenKindView::LBracket);
            lemma_items_end_sign(src, a, items, 0);
        },
        Form::Mapping(entries) => {
            let a = token_end(src, p, TokenKindView::LBrace);
            lemma_entries_end_sign(src, a, entries, 0, false);
        },
        Form::Record(entries) => {
            let a = token_end(src, p, TokenKindView::LBrace);
            lemma_entries_end_sign(src, a, entries, 0, true);
        },
    }
}

pub proof fn lemma_entries_end_sign(
    src: Seq<char>,
    p: int,
    entries: Seq<(Form, Form)>,
    i: int,
    dressed: bool,
)
    requires
        0 <= i <= entries.len(),
        entries_end(src, p, entries, i, dressed) >= 0,
    ensures
        p >= 0,
    decreases entries, left(entries.len(), i),
{
    if i < entries.len() {
        let b = read_end(src, p, entries[i].0);
        let c = colon_end(src, b, dressed);
        let d = read_end(src, c, entries[i].1);
        let e = comma_end(src, d, i + 1 < entries.len(), dressed);
        lemma_entries_end_sign(src, e, entries, i + 1, dressed);
        lemma_read_end_sign(src, c, entries[i].1);
        lemma_read_end_sign(src, p, entries[i].0);
    }
}

proof fn lemma_scans_items(src: Seq<char>, p: int, items: Seq<Form>, i: int)
    requires
        0 <= i <= items.len(),
        items_end(src, p, items, i) >= 0,
    ensures
        scans(src, p, item_kinds(items, i), 0, items_end(src, p, items, i)),
    decreases items, left(items.len(), i),
{
    lemma_items_end_sign(src, p, items, i);
    if i < items.len() {
        let q = read_end(src, p, items[i]);
        lemma_items_end_sign(src, q, items, i + 1);
        lemma_scans_form(src, p, items[i]);
        lemma_scans_items(src, q, items, i + 1);
        lemma_scans_join(
            src,
            p,
            kinds(items[i]),
            0,
            q,
            item_kinds(items, i + 1),
            items_end(src, p, items, i),
        );
    }
}

proof fn lemma_scans_entries(
    src: Seq<char>,
    p: int,
    entries: Seq<(Form, Form)>,
    i: int,
    dressed: bool,
)
    requires
        0 <= i <= entries.len(),
        entries_end(src, p, entries, i, dressed) >= 0,
    ensures
        scans(src, p, entry_kinds(entries, i, dressed), 0, entries_end(src, p, entries, i, dressed)),
    decreases entries, left(entries.len(), i),
{
    lemma_entries_end_sign(src, p, entries, i, dressed);
    if i < entries.len() {
        let b = read_end(src, p, entries[i].0);
        let c = colon_end(src, b, dressed);
        let d = read_end(src, c, entries[i].1);
        let more = i + 1 < entries.len();
        let e = comma_end(src, d, more, dressed);
        let z = entries_end(src, p, entries, i, dressed);
        lemma_entries_end_sign(src, e, entries, i + 1, dressed);
        lemma_read_end_sign(src, c, entries[i].1);
        lemma_read_end_sign(src, p, entries[i].0);
        lemma_scans_form(src, p, entries[i].0);
        if dressed {
            lemma_scans_one(src, b, TokenKindView::Colon);
        }
        assert(scans(src, b, colon(dressed), 0, c));
        lemma_scans_form(src, c, entries[i].1);
        if dressed && more {
            lemma_scans_one(src, d, TokenKindView::Comma);
        }
        assert(scans(src, d, comma(more, dressed), 0, e));
        lemma_scans_entries(src, e, entries, i + 1, dressed);
        let k1 = kinds(entries[i].0);
        let k2 = k1 + colon(dressed);
        let k3 = k2 + kinds(entries[i].1);
        let k4 = k3 + comma(more, dressed);
        lemma_scans_join(src, p, k1, 0, b, colon(dressed), c);
        lemma_scans_join(src, p, k2, 0, c, kinds(entries[i].1), d);
        lemma_scans_join(src, p, k3, 0, d, comma(more, dressed), e);
        lemma_scans_join(src, p, k4, 0, e, entry_kinds(entries, i + 1, dressed), z);
    }
}

/// Whether the tokens from `k` on have the kinds `ks`.
pub open spec fn kinds_at(toks: Seq<TokenView>, k: int, ks: Seq<TokenKindView>) -> bool {
    &&& 0 <= k
    &&& k + ks.len() <= toks.len()
    &&& forall|j: int| 0 <= j < ks.len() ==> toks[k + j].kind == #[trigger] ks[j]
}

proof fn lemma_kinds_split(toks: Seq<TokenView>, k: int, a: Seq<TokenKindView>, b: Seq<TokenKindView>)
    requires
        kinds_at(toks, k, a + b),
    ensures
        kinds_at(toks, k, a),
        kinds_at(toks, k + a.len(), b),
{
    assert forall|j: int| 0 <= j < a.len() implies toks[k + j].kind == #[trigger] a[j] by {
        assert((a + b)[j] == a[j]);
    }
    assert forall|j: int| 0 <= j < b.len() implies toks[k + a.len() + j].kind == #[trigger] b[j] by {
        assert((a + b)[a.len() + j] == b[j]);
    }
}

/// What is scanned up to the end of the text is what the lexer gives,
/// followed by the end-of-stream sentinel.
proof fn lemma_lex_scans(
    src: Seq<char>,
    p: int,
    ks: Seq<TokenKindView>,
    i: int,
    q: int,
    acc: Seq<TokenView>,
)
    requires
        0 <= i <= ks.len(),
        scans(src, p, ks, i, q),
        skip_trivia(src, q, false) >= src.len(),
        acc.len() == i,
        forall|j: int| 0 <= j < i ==> acc[j].kind == #[trigger] ks[j],
    ensures
        lex_from(src, p, acc) matches LexOutcome::Tokens(t) && t.len() == ks.len() + 1 && kinds_at(
            t,
            0,
            ks,
        ) && t[ks.len() as int].kind == TokenKindView::Eof,
    decreases ks.len() - i,
{
    if i < ks.len() {
        let a = skip_trivia(src, p, false);
        let n = token_end(src, p, ks[i]);
        let next = acc.push(
            TokenView { kind: ks[i], start: boff(src, a) as int, end: boff(src, n) as int },
        );
        assert(n >= 0);
        if p <= src.len() {
            lemma_skip_trivia_bounds(src, p, false);
        }
        assert(0 <= a < src.len());
        assert(token_at(src, a) == (LexStep::Tok { kind: ks[i], next: n }));
        assert(lex_from(src, p, acc) == lex_from(src, n, next));
        assert forall|j: int| 0 <= j < i + 1 implies next[j].kind == #[trigger] ks[j] by {
            if j < i {
                assert(next[j] == acc[j]);
            }
        }
        lemma_lex_scans(src, n, ks, i + 1, q, next);
    } else {
        let t = acc.push(
            TokenView {
                kind: TokenKindView::Eof,
                start: boff(src, skip_trivia(src, p, false)) as int,
                end: boff(src, skip_trivia(src, p, false)) as int,
            },
        );
        assert(lex_from(src, p, acc) == LexOutcome::Tokens(t));
        assert forall|j: int| 0 <= j < ks.len() implies t[0 + j].kind == #[trigger] ks[j] by {
            assert(t[j] == acc[j]);
        }
    }
}

/// Whether a token starts an item: an opening delimiter or an atom.
pub open spec fn starts_item(k: TokenKindView) -> bool {
    k == TokenKindView::LParen || k == TokenKindView::LBracket || k == TokenKindView::LBrace
        || atom_of(k).is_some()
}

proof fn lemma_first_kind(f: Form)
    ensures
        kinds(f).len() >= 1,
        starts_item(kinds(f)[0]),
{
}

/// Tokens with the kinds of a form read as one tree of that shape.
proof fn lemma_parse_form(toks: Seq<TokenView>, k: int, f: Form)
    requires
        kinds_at(toks, k, kinds(f)),
    ensures
        parse_expr(toks, k) matches ParseStep::Node { expr, more } && more == kinds(f).len() - 1
            && shape(expr) == to_shape(f),
    decreases f, 0nat,
{
    let ks = kinds(f);
    assert(toks[k + 0].kind == ks[0]);
    assert(kind_at(toks, k) == ks[0]);
    match f {
        Form::Atom(a) => {
            assert(atom_of(atom_kind(a)) == Some(a));
        },
        Form::List(items) => {
            let inner = item_kinds(items, 0);
            let n = inner.len() as int;
            lemma_kinds_split(toks, k, seq![TokenKindView::LParen] + inner, seq![TokenKindView::RParen]);
            lemma_kinds_split(toks, k, seq![TokenKindView::LParen], inner);
            assert(toks[k + 1 + n + 0].kind == seq![TokenKindView::RParen][0]);
            lemma_parse_items(toks, k + 1, items, 0, TokenKindView::RParen, Seq::empty());
            let res = parse_items(toks, k + 1, TokenKindView::RParen, Seq::empty())->items;
            assert(kind_at(toks, k + 1 + n) == TokenKindView::RParen);
            assert(shapes(res) =~= to_shapes(items));
        },
        Form::Vector(items) => {
            let inner = item_kinds(items, 0);
            let n = inner.len() as int;
            lemma_kinds_split(
                toks,
                k,
                seq![TokenKindView::LBracket] + inner,
                seq![TokenKindView::RBracket],
            );
            lemma_kinds_split(toks, k, seq![TokenKindView::LBracket], inner);
            assert(toks[k + 1 + n + 0].kind == seq![TokenKindView::RBracket][0]);
            lemma_parse_items(toks, k + 1, items, 0, TokenKindView::RBracket, Seq::empty());
            let res = parse_items(toks, k + 1, TokenKindView::RBracket, Seq::empty())->items;
            assert(kind_at(toks, k + 1 + n) == TokenKindView::RBracket);
            assert(shapes(res) =~= to_shapes(items));
        },
        Form::Mapping(entries) => {
            let inner = entry_kinds(entries, 0, false);
            let n = inner.len() as int;
            lemma_kinds_split(toks, k, seq![TokenKindView::LBrace] + inner, seq![TokenKindView::RBrace]);
            lemma_kinds_split(toks, k, seq![TokenKindView::LBrace], inner);
            assert(toks[k + 1 + n + 0].kind == seq![TokenKindView::RBrace][0]);
            lemma_parse_entries(toks, k + 1, entries, 0, false, Seq::empty());
            let res = parse_entries(toks, k + 1, Seq::empty())->entries;
            assert(kind_at(toks, k + 1 + n) == TokenKindView::RBrace);
            assert(pair_shapes(res) =~= to_pair_shapes(entries));
        },
        Form::Record(entries) => {
            let inner = entry_kinds(entries, 0, true);
            let n = inner.len() as int;
            lemma_kinds_split(toks, k, seq![TokenKindView::LBrace] + inner, seq![TokenKindView::RBrace]);
            lemma_kinds_split(toks, k, seq![TokenKindView::LBrace], inner);
            assert(toks[k + 1 + n + 0].kind == seq![TokenKindView::RBrace][0]);
            lemma_parse_entries(toks, k + 1, entries, 0, true, Seq::empty());
            let res = parse_entries(toks, k + 1, Seq::empty())->entries;
            assert(kind_at(toks, k + 1 + n) == TokenKindView::RBrace);
            assert(pair_shapes(res) =~= to_pair_shapes(entries));
        },
    }
}

proof fn lemma_parse_items(
    toks: Seq<TokenView>,
    k: int,
    items: Seq<Form>,
    i: int,
    close: TokenKindView,
    acc: Seq<SExprView>,
)
    requires
        0 <= i <= items.len(),
        kinds_at(toks, k, item_kinds(items, i)),
        k + item_kinds(items, i).len() < toks.len(),
        toks[k + item_kinds(items, i).len()].kind == close,
        close == TokenKindView::RParen || close == TokenKindView::RBracket,
        acc.len() == i,
        forall|m: int| 0 <= m < i ==> shape(#[trigger] acc[m]) == to_shape(items[m]),
    ensures
        parse_items(toks, k, close, acc) matches ItemsStep::Items { items: res, next } && next == k
            + item_kinds(items, i).len() && res.len() == items.len() && forall|m: int|
            0 <= m < items.len() ==> shape(#[trigger] res[m]) == to_shape(items[m]),
    decreases items, left(items.len(), i),
{
    if i < items.len() {
        let first = kinds(items[i]);
        let rest = item_kinds(items, i + 1);
        lemma_first_kind(items[i]);
        lemma_kinds_split(toks, k, first, rest);
        assert(toks[k + 0].kind == first[0]);
        assert(kind_at(toks, k) == first[0]);
        lemma_parse_form(toks, k, items[i]);
        let expr = parse_expr(toks, k)->expr;
        let next = acc.push(expr);
        assert forall|m: int| 0 <= m < i + 1 implies shape(#[trigger] next[m]) == to_shape(
            items[m],
        ) by {
            if m < i {
                assert(next[m] == acc[m]);
            }
        }
        lemma_parse_items(toks, k + first.len(), items, i + 1, close, next);
    } else {
        assert(kind_at(toks, k) == close);
    }
}

proof fn lemma_parse_entries(
    toks: Seq<TokenView>,
    k: int,
    entries: Seq<(Form, Form)>,
    i: int,
    dressed: bool,
    acc: Seq<(SExprView, SExprView)>,
)
    requires
        0 <= i <= entries.len(),
        kinds_at(toks, k, entry_kinds(entries, i, dressed)),
        k + entry_kinds(entries, i, dressed).len() < toks.len(),
        toks[k + entry_kinds(entries, i, dressed).len()].kind == TokenKindView::RBrace,
        acc.len() == i,
        forall|m: int|
            0 <= m < i ==> shape((#[trigger] acc[m]).0) == to_shape(entries[m].0) && shape(acc[m].1)
                == to_shape(entries[m].1),
    ensures
        parse_entries(toks, k, acc) matches EntriesStep::Entries { entries: res, next } && next == k
            + entry_kinds(entries, i, dressed).len() && res.len() == entries.len() && forall|m: int|
            0 <= m < entries.len() ==> shape((#[trigger] res[m]).0) == to_shape(entries[m].0)
                && shape(res[m].1) == to_shape(entries[m].1),
    decreases entries, left(entries.len(), i),
{
    if i < entries.len() {
        let more = i + 1 < entries.len();
        let k1 = kinds(entries[i].0);
        let k2 = colon(dressed);
        let k3 = kinds(entries[i].1);
        let k4 = comma(more, dressed);
        let rest = entry_kinds(entries, i + 1, dressed);
        lemma_first_kind(entries[i].0);
        lemma_first_kind(entries[i].1);
        lemma_kinds_split(toks, k, k1 + k2 + k3 + k4, rest);
        lemma_kinds_split(toks, k, k1 + k2 + k3, k4);
        lemma_kinds_split(toks, k, k1 + k2, k3);
        lemma_kinds_split(toks, k, k1, k2);
        assert(toks[k + 0].kind == k1[0]);
        assert(kind_at(toks, k) == k1[0]);
        lemma_parse_form(toks, k, entries[i].0);
        let key = parse_expr(toks, k)->expr;
        let c = k + k1.len();
        let v = c + k2.len();
        assert(toks[v + 0].kind == k3[0]);
        if dressed {
            assert(toks[c + 0].kind == k2[0]);
        } else {
            assert(kind_at(toks, c) == k3[0]);
        }
        assert(skip_sep(toks, c, TokenKindView::Colon) == v);
        lemma_parse_form(toks, v, entries[i].1);
        let value = parse_expr(toks, v)->expr;
        let d = v + k3.len();
        let e = d + k4.len();
        if dressed && more {
            assert(toks[d + 0].kind == k4[0]);
        } else if more {
            lemma_first_kind(entries[i + 1].0);
            let nk = kinds(entries[i + 1].0);
            let after = colon(dressed) + kinds(entries[i + 1].1) + comma(
                i + 2 < entries.len(),
                dressed,
            ) + entry_kinds(entries, i + 2, dressed);
            assert(rest =~= nk + after);
            assert(rest[0] == nk[0]);
            assert(toks[e + 0].kind == rest[0]);
        } else {
            assert(rest.len() == 0);
            assert(kind_at(toks, d) == TokenKindView::RBrace);
        }
        assert(skip_sep(toks, d, TokenKindView::Comma) == e);
        let next = acc.push((key, value));
        assert forall|m: int| 0 <= m < i + 1 implies shape((#[trigger] next[m]).0) == to_shape(
            entries[m].0,
        ) && shape(next[m].1) == to_shape(entries[m].1) by {
            if m < i {
                assert(next[m] == acc[m]);
            }
        }
        lemma_parse_entries(toks, e, entries, i + 1, dressed, next);
    } else {
        assert(kind_at(toks, k) == TokenKindView::RBrace);
    }
}

/// A text that holds one form, and nothing behind it but what the lexer
/// skips, lexes, and its tokens read as exactly one tree, of the shape of
/// the form.
pub proof fn lemma_reads_form(src: Seq<char>, f: Form)
    requires
        read_end(src, 0, f) >= 0,
        skip_trivia(src, read_end(src, 0, f), false) >= src.len(),
    ensures
        lex(src) matches LexOutcome::Tokens(toks) && parse(toks) matches ParseOutcome::Program(exprs)
            && exprs.len() == 1 && shape(exprs[0]) == to_shape(f),
{
    let ks = kinds(f);
    lemma_scans_form(src, 0, f);
    lemma_lex_scans(src, 0, ks, 0, read_end(src, 0, f), Seq::empty());
    let toks = lex_from(src, 0, Seq::empty())->Tokens_0;
    lemma_first_kind(f);
    assert(toks[0int + 0].kind == ks[0]);
    lemma_parse_form(toks, 0, f);
    let expr = parse_expr(toks, 0)->expr;
    let n = ks.len() as int;
    assert(kind_at(toks, n) == TokenKindView::Eof);
    assert(parse_from(toks, n, seq![expr]) == ParseOutcome::Program(seq![expr]));
}

} // verus!

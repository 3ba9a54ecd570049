//! The canonical text of a tree of containers reads back as the same tree.
//!
//! `format_spec` writes a list as `(a b c)`, a vector as `[a b c]` and a
//! map as `{k: v, k: v}`. For a tree that holds no atom, lexing and reading
//! that text gives one tree of the same shape; spans are not compared.

use vstd::prelude::*;
use crate::lexer::{TokenKindView, TokenView, LexOutcome, LexStep, boff, lex, lex_from, skip_trivia,
    token_at, colon_at, spec_is_space, spec_is_symbol_start, spec_is_alpha};
use crate::lower::{format_into, format_items, format_entries, format_spec};
use crate::parser::{AtomView, SExprKindView, SExprView, ParseOutcome, ParseStep, ItemsStep,
    EntriesStep, kind_at, start_at, end_at, parse, parse_from, parse_expr, parse_items,
    parse_entries, close_node, skip_sep, atom_of, remaining};
use crate::text::left;

verus! {

/// A tree without its spans.
pub ghost enum Shape {
    List(Seq<Shape>),
    Vector(Seq<Shape>),
    Mapping(Seq<(Shape, Shape)>),
    Atom(AtomView),
}

/// The shape of a tree.
pub open spec fn shape(e: SExprView) -> Shape
    decreases e, 0nat,
{
    match e.kind {
        SExprKindView::List(items) => Shape::List(shapes(items)),
        SExprKindView::Vector(items) => Shape::Vector(shapes(items)),
        SExprKindView::Mapping(entries) => Shape::Mapping(pair_shapes(entries)),
        SExprKindView::Atom(a) => Shape::Atom(a),
    }
}

pub open spec fn shapes(items: Seq<SExprView>) -> Seq<Shape>
    decreases items, 1nat,
{
    Seq::new(items.len(), |i: int| if 0 <= i < items.len() { shape(items[i]) } else { arbitrary() })
}

pub open spec fn pair_shapes(entries: Seq<(SExprView, SExprView)>) -> Seq<(Shape, Shape)>
    decreases entries, 1nat,
{
    Seq::new(
        entries.len(),
        |i: int|
            if 0 <= i < entries.len() {
                (shape(entries[i].0), shape(entries[i].1))
            } else {
                arbitrary()
            },
    )
}

/// Whether a tree holds no atom.
pub open spec fn atom_free(e: SExprView) -> bool
    decreases e, 0nat,
{
    match e.kind {
        SExprKindView::List(items) => items_free(items, 0),
        SExprKindView::Vector(items) => items_free(items, 0),
        SExprKindView::Mapping(entries) => entries_free(entries, 0),
        SExprKindView::Atom(_) => false,
    }
}

pub open spec fn items_free(items: Seq<SExprView>, i: int) -> bool
    decreases items, left(items.len(), i),
{
    if 0 <= i < items.len() {
        atom_free(items[i]) && items_free(items, i + 1)
    } else {
        true
    }
}

pub open spec fn entries_free(entries: Seq<(SExprView, SExprView)>, i: int) -> bool
    decreases entries, left(entries.len(), i),
{
    if 0 <= i < entries.len() {
        atom_free(entries[i].0) && atom_free(entries[i].1) && entries_free(entries, i + 1)
    } else {
        true
    }
}

/// Length of the canonical text of an atom-free tree.
pub open spec fn flen(e: SExprView) -> nat
    decreases e, 0nat,
{
    match e.kind {
        SExprKindView::List(items) => 2 + items_len(items, 0),
        SExprKindView::Vector(items) => 2 + items_len(items, 0),
        SExprKindView::Mapping(entries) => 2 + entries_len(entries, 0),
        SExprKindView::Atom(_) => 0,
    }
}

/// Length of the text of the items from `i` on, with the separators
/// between them.
pub open spec fn items_len(items: Seq<SExprView>, i: int) -> nat
    decreases items, left(items.len(), i),
{
    if 0 <= i < items.len() {
        flen(items[i]) + (if i + 1 < items.len() {
            1nat
        } else {
            0nat
        }) + items_len(items, i + 1)
    } else {
        0
    }
}

pub open spec fn entries_len(entries: Seq<(SExprView, SExprView)>, i: int) -> nat
    decreases entries, left(entries.len(), i),
{
    if 0 <= i < entries.len() {
        flen(entries[i].0) + 2 + flen(entries[i].1) + (if i + 1 < entries.len() {
            2nat
        } else {
            0nat
        }) + entries_len(entries, i + 1)
    } else {
        0
    }
}

/// The opening character of a container.
pub open spec fn opener(k: SExprKindView) -> char {
    match k {
        SExprKindView::List(_) => '(',
        SExprKindView::Vector(_) => '[',
        _ => '{',
    }
}

/// The closing character of a container.
pub open spec fn closer(k: SExprKindView) -> char {
    match k {
        SExprKindView::List(_) => ')',
        SExprKindView::Vector(_) => ']',
        _ => '}',
    }
}

/// Whether the canonical text of `e` stands in `s` at `p`.
pub open spec fn text_at(s: Seq<char>, p: int, e: SExprView) -> bool
    decreases e, 0nat,
{
    &&& !(e.kind is Atom)
    &&& 0 <= p
    &&& p + flen(e) <= s.len()
    &&& s[p] == opener(e.kind)
    &&& s[p + flen(e) - 1] == closer(e.kind)
    &&& match e.kind {
        SExprKindView::List(items) => items_at(s, p + 1, items, 0),
        SExprKindView::Vector(items) => items_at(s, p + 1, items, 0),
        SExprKindView::Mapping(entries) => entries_at(s, p + 1, entries, 0),
        SExprKindView::Atom(_) => false,
    }
}

/// Whether the texts of the items from `i` on stand in `s` from `p` on,
/// one space between neighbours.
pub open spec fn items_at(s: Seq<char>, p: int, items: Seq<SExprView>, i: int) -> bool
    decreases items, left(items.len(), i),
{
    if 0 <= i < items.len() {
        &&& text_at(s, p, items[i])
        &&& (i + 1 < items.len() ==> p + flen(items[i]) < s.len() && s[p + flen(items[i])] == ' ')
        &&& items_at(
            s,
            p + flen(items[i]) + if i + 1 < items.len() {
                1int
            } else {
                0int
            },
            items,
            i + 1,
        )
    } else {
        true
    }
}

/// Whether the texts of the entries from `i` on stand in `s` from `p` on,
/// `: ` between key and value and `, ` between neighbours.
pub open spec fn entries_at(s: Seq<char>, p: int, entries: Seq<(SExprView, SExprView)>, i: int) -> bool
    decreases entries, left(entries.len(), i),
{
    if 0 <= i < entries.len() {
        let c = p + flen(entries[i].0);
        let q = c + 2 + flen(entries[i].1);
        &&& text_at(s, p, entries[i].0)
        &&& c + 1 < s.len()
        &&& s[c] == ':'
        &&& s[c + 1] == ' '
        &&& text_at(s, c + 2, entries[i].1)
        &&& (i + 1 < entries.len() ==> q + 1 < s.len() && s[q] == ',' && s[q + 1] == ' ')
        &&& entries_at(
            s,
            q + if i + 1 < entries.len() {
                2int
            } else {
                0int
            },
            entries,
            i + 1,
        )
    } else {
        true
    }
}

/// Whether `b` starts with `a`.
pub open spec fn is_prefix<T>(a: Seq<T>, b: Seq<T>) -> bool {
    a.len() <= b.len() && forall|j: int| 0 <= j < a.len() ==> #[trigger] b[j] == a[j]
}

proof fn lemma_text_at_extends(s: Seq<char>, t: Seq<char>, p: int, e: SExprView)
    requires
        text_at(s, p, e),
        is_prefix(s, t),
    ensures
        text_at(t, p, e),
    decreases e, 0nat,
{
    assert(t[p] == s[p]);
    assert(t[p + flen(e) - 1] == s[p + flen(e) - 1]);
    match e.kind {
        SExprKindView::List(items) => {
            lemma_items_at_extends(s, t, p + 1, items, 0);
        },
        SExprKindView::Vector(items) => {
            lemma_items_at_extends(s, t, p + 1, items, 0);
        },
        SExprKindView::Mapping(entries) => {
            lemma_entries_at_extends(s, t, p + 1, entries, 0);
        },
        SExprKindView::Atom(_) => {},
    }
}

proof fn lemma_items_at_extends(s: Seq<char>, t: Seq<char>, p: int, items: Seq<SExprView>, i: int)
    requires
        items_at(s, p, items, i),
        is_prefix(s, t),
    ensures
        items_at(t, p, items, i),
    decreases items, left(items.len(), i),
{
    if 0 <= i < items.len() {
        lemma_text_at_extends(s, t, p, items[i]);
        if i + 1 < items.len() {
            assert(t[p + flen(items[i])] == s[p + flen(items[i])]);
        }
        lemma_items_at_extends(
            s,
            t,
            p + flen(items[i]) + if i + 1 < items.len() {
                1int
            } else {
                0int
            },
            items,
            i + 1,
        );
    }
}

proof fn lemma_entries_at_extends(
    s: Seq<char>,
    t: Seq<char>,
    p: int,
    entries: Seq<(SExprView, SExprView)>,
    i: int,
)
    requires
        entries_at(s, p, entries, i),
        is_prefix(s, t),
    ensures
        entries_at(t, p, entries, i),
    decreases entries, left(entries.len(), i),
{
    if 0 <= i < entries.len() {
        let c = p + flen(entries[i].0);
        let q = c + 2 + flen(entries[i].1);
        lemma_text_at_extends(s, t, p, entries[i].0);
        assert(t[c] == s[c]);
        assert(t[c + 1] == s[c + 1]);
        lemma_text_at_extends(s, t, c + 2, entries[i].1);
        if i + 1 < entries.len() {
            assert(t[q] == s[q]);
            assert(t[q + 1] == s[q + 1]);
        }
        lemma_entries_at_extends(
            s,
            t,
            q + if i + 1 < entries.len() {
                2int
            } else {
                0int
            },
            entries,
            i + 1,
        );
    }
}


proof fn lemma_prefix_trans<T>(a: Seq<T>, b: Seq<T>, c: Seq<T>)
    requires
        is_prefix(a, b),
        is_prefix(b, c),
    ensures
        is_prefix(a, c),
{
    assert forall|j: int| 0 <= j < a.len() implies #[trigger] c[j] == a[j] by {
        assert(b[j] == a[j]);
        assert(c[j] == b[j]);
    }
}

/// What `format_into` writes for an atom-free tree is the canonical text
/// that `text_at` describes, appended to what was there.
proof fn lemma_format_into(acc: Seq<char>, e: SExprView)
    requires
        atom_free(e),
    ensures
        format_into(acc, e).len() == acc.len() + flen(e),
        is_prefix(acc, format_into(acc, e)),
        text_at(format_into(acc, e), acc.len() as int, e),
    decreases e, 0nat,
{
    let open = acc.push(opener(e.kind));
    assert(is_prefix(acc, open));
    match e.kind {
        SExprKindView::List(items) => {
            lemma_format_items(open, items, 0);
            let body = format_items(open, items, 0);
            let all = body.push(')');
            assert(is_prefix(body, all));
            lemma_prefix_trans(open, body, all);
            lemma_prefix_trans(acc, open, all);
            assert(all[acc.len() as int] == open[acc.len() as int]);
            if items.len() > 0 {
                lemma_items_at_extends(body, all, acc.len() as int + 1, items, 0);
            }
        },
        SExprKindView::Vector(items) => {
            lemma_format_items(open, items, 0);
            let body = format_items(open, items, 0);
            let all = body.push(']');
            assert(is_prefix(body, all));
            lemma_prefix_trans(open, body, all);
            lemma_prefix_trans(acc, open, all);
            assert(all[acc.len() as int] == open[acc.len() as int]);
            if items.len() > 0 {
                lemma_items_at_extends(body, all, acc.len() as int + 1, items, 0);
            }
        },
        SExprKindView::Mapping(entries) => {
            lemma_format_entries(open, entries, 0);
            let body = format_entries(open, entries, 0);
            let all = body.push('}');
            assert(is_prefix(body, all));
            lemma_prefix_trans(open, body, all);
            lemma_prefix_trans(acc, open, all);
            assert(all[acc.len() as int] == open[acc.len() as int]);
            if entries.len() > 0 {
                lemma_entries_at_extends(body, all, acc.len() as int + 1, entries, 0);
            }
        },
        SExprKindView::Atom(_) => {},
    }
}

/// The separator that `format_items` writes before the item at `i`.
spec fn item_lead(i: int) -> int {
    if i > 0 {
        1
    } else {
        0
    }
}

proof fn lemma_format_items(acc: Seq<char>, items: Seq<SExprView>, i: int)
    requires
        0 <= i <= items.len(),
        items_free(items, i),
    ensures
        i == items.len() ==> format_items(acc, items, i) == acc,
        is_prefix(acc, format_items(acc, items, i)),
        i < items.len() ==> {
            let t = format_items(acc, items, i);
            &&& t.len() == acc.len() + item_lead(i) + items_len(items, i)
            &&& (i > 0 ==> t[acc.len() as int] == ' ')
            &&& items_at(t, acc.len() + item_lead(i), items, i)
        },
    decreases items, left(items.len(), i),
{
    if i < items.len() {
        let sep = if i > 0 {
            acc.push(' ')
        } else {
            acc
        };
        assert(is_prefix(acc, sep));
        lemma_format_into(sep, items[i]);
        let one = format_into(sep, items[i]);
        lemma_format_items(one, items, i + 1);
        let t = format_items(one, items, i + 1);
        assert(t == format_items(acc, items, i));
        lemma_prefix_trans(sep, one, t);
        lemma_prefix_trans(acc, sep, t);
        lemma_text_at_extends(one, t, sep.len() as int, items[i]);
        if i > 0 {
            assert(t[acc.len() as int] == sep[acc.len() as int]);
        }
        let p = sep.len() as int;
        assert(p == acc.len() + item_lead(i));
        assert(one.len() == p + flen(items[i]));
        if i + 1 < items.len() {
            assert(item_lead(i + 1) == 1);
            assert(t.len() == one.len() + 1 + items_len(items, i + 1));
            assert(t[one.len() as int] == ' ');
            assert(items_at(t, one.len() as int + 1, items, i + 1));
            assert(items_at(t, p + flen(items[i]) + 1, items, i + 1));
        } else {
            assert(t == one);
            assert(items_len(items, i + 1) == 0);
            assert(items_at(t, p + flen(items[i]) + 0, items, i + 1));
        }
        assert(items_len(items, i) == flen(items[i]) + (if i + 1 < items.len() {
            1nat
        } else {
            0nat
        }) + items_len(items, i + 1));
        assert(items_at(t, p, items, i));
    }
}

/// The separator that `format_entries` writes before the entry at `i`.
spec fn entry_lead(i: int) -> int {
    if i > 0 {
        2
    } else {
        0
    }
}

proof fn lemma_format_entries(acc: Seq<char>, entries: Seq<(SExprView, SExprView)>, i: int)
    requires
        0 <= i <= entries.len(),
        entries_free(entries, i),
    ensures
        i == entries.len() ==> format_entries(acc, entries, i) == acc,
        is_prefix(acc, format_entries(acc, entries, i)),
        i < entries.len() ==> {
            let t = format_entries(acc, entries, i);
            &&& t.len() == acc.len() + entry_lead(i) + entries_len(entries, i)
            &&& (i > 0 ==> t[acc.len() as int] == ',' && t[acc.len() as int + 1] == ' ')
            &&& entries_at(t, acc.len() + entry_lead(i), entries, i)
        },
    decreases entries, left(entries.len(), i),
{
    reveal_strlit(", ");
    reveal_strlit(": ");
    if i < entries.len() {
        let sep = if i > 0 {
            acc + ", "@
        } else {
            acc
        };
        assert(is_prefix(acc, sep));
        lemma_format_into(sep, entries[i].0);
        let key = format_into(sep, entries[i].0);
        let colon = key + ": "@;
        assert(is_prefix(key, colon));
        lemma_format_into(colon, entries[i].1);
        let one = format_into(colon, entries[i].1);
        lemma_format_entries(one, entries, i + 1);
        let t = format_entries(one, entries, i + 1);
        assert(t == format_entries(acc, entries, i));
        lemma_prefix_trans(colon, one, t);
        lemma_prefix_trans(key, colon, t);
        lemma_prefix_trans(sep, key, t);
        lemma_prefix_trans(acc, sep, t);
        lemma_text_at_extends(key, t, sep.len() as int, entries[i].0);
        lemma_text_at_extends(one, t, colon.len() as int, entries[i].1);
        let p = sep.len() as int;
        let c = (sep.len() + flen(entries[i].0)) as int;
        let q = c + 2 + flen(entries[i].1);
        assert(key.len() == c);
        assert(colon.len() == c + 2);
        assert(colon[c] == ':' && colon[c + 1] == ' ');
        assert(t[c] == colon[c]);
        assert(t[c + 1] == colon[c + 1]);
        assert(one.len() == q);
        if i > 0 {
            assert(sep[acc.len() as int] == ',' && sep[acc.len() as int + 1] == ' ');
            assert(t[acc.len() as int] == sep[acc.len() as int]);
            assert(t[acc.len() as int + 1] == sep[acc.len() as int + 1]);
        }
        assert(p == acc.len() + entry_lead(i));
        if i + 1 < entries.len() {
            assert(entry_lead(i + 1) == 2);
            assert(t.len() == one.len() + 2 + entries_len(entries, i + 1));
            assert(t[q] == ',' && t[q + 1] == ' ');
            assert(entries_at(t, q + 2, entries, i + 1));
        } else {
            assert(t == one);
            assert(entries_len(entries, i + 1) == 0);
            assert(entries_at(t, q + 0, entries, i + 1));
        }
        assert(entries_len(entries, i) == flen(entries[i].0) + 2 + flen(entries[i].1) + (if i + 1
            < entries.len() {
            2nat
        } else {
            0nat
        }) + entries_len(entries, i + 1));
        assert(text_at(t, p, entries[i].0));
        assert(text_at(t, c + 2, entries[i].1));
        assert(entries_at(t, p, entries, i));
    }
}


/// The token of one character at `p`.
pub open spec fn tok(kind: TokenKindView, s: Seq<char>, p: int) -> TokenView {
    TokenView { kind, start: boff(s, p) as int, end: boff(s, p + 1) as int }
}

/// The token that opens a container.
pub open spec fn open_kind(k: SExprKindView) -> TokenKindView {
    match k {
        SExprKindView::List(_) => TokenKindView::LParen,
        SExprKindView::Vector(_) => TokenKindView::LBracket,
        _ => TokenKindView::LBrace,
    }
}

/// The token that closes a container.
pub open spec fn close_kind(k: SExprKindView) -> TokenKindView {
    match k {
        SExprKindView::List(_) => TokenKindView::RParen,
        SExprKindView::Vector(_) => TokenKindView::RBracket,
        _ => TokenKindView::RBrace,
    }
}

/// `acc` followed by the tokens of the text of `e`, which stands in `s` at `p`.
pub open spec fn lexed(s: Seq<char>, p: int, e: SExprView, acc: Seq<TokenView>) -> Seq<TokenView>
    decreases e, 0nat,
{
    let a = acc.push(tok(open_kind(e.kind), s, p));
    let b = match e.kind {
        SExprKindView::List(items) => lexed_items(s, p + 1, items, 0, a),
        SExprKindView::Vector(items) => lexed_items(s, p + 1, items, 0, a),
        SExprKindView::Mapping(entries) => lexed_entries(s, p + 1, entries, 0, a),
        SExprKindView::Atom(_) => a,
    };
    b.push(tok(close_kind(e.kind), s, p + flen(e) - 1))
}

pub open spec fn lexed_items(
    s: Seq<char>,
    p: int,
    items: Seq<SExprView>,
    i: int,
    acc: Seq<TokenView>,
) -> Seq<TokenView>
    decreases items, left(items.len(), i),
{
    if 0 <= i < items.len() {
        lexed_items(
            s,
            p + flen(items[i]) + if i + 1 < items.len() {
                1int
            } else {
                0int
            },
            items,
            i + 1,
            lexed(s, p, items[i], acc),
        )
    } else {
        acc
    }
}

pub open spec fn lexed_entries(
    s: Seq<char>,
    p: int,
    entries: Seq<(SExprView, SExprView)>,
    i: int,
    acc: Seq<TokenView>,
) -> Seq<TokenView>
    decreases entries, left(entries.len(), i),
{
    if 0 <= i < entries.len() {
        let c = p + flen(entries[i].0);
        let q = c + 2 + flen(entries[i].1);
        let a1 = lexed(s, p, entries[i].0, acc).push(tok(TokenKindView::Colon, s, c));
        let a2 = lexed(s, c + 2, entries[i].1, a1);
        if i + 1 < entries.len() {
            lexed_entries(s, q + 2, entries, i + 1, a2.push(tok(TokenKindView::Comma, s, q)))
        } else {
            lexed_entries(s, q, entries, i + 1, a2)
        }
    } else {
        acc
    }
}

/// Whether `c` alone is a token of kind `kind`.
pub open spec fn single(c: char, kind: TokenKindView) -> bool {
    ||| c == '(' && kind == TokenKindView::LParen
    ||| c == ')' && kind == TokenKindView::RParen
    ||| c == '[' && kind == TokenKindView::LBracket
    ||| c == ']' && kind == TokenKindView::RBracket
    ||| c == '{' && kind == TokenKindView::LBrace
    ||| c == '}' && kind == TokenKindView::RBrace
    ||| c == ',' && kind == TokenKindView::Comma
}

proof fn lemma_lex_single(s: Seq<char>, p: int, acc: Seq<TokenView>, kind: TokenKindView)
    requires
        0 <= p < s.len(),
        single(s[p], kind),
    ensures
        lex_from(s, p, acc) == lex_from(s, p + 1, acc.push(tok(kind, s, p))),
{
    assert(skip_trivia(s, p, false) == p);
    assert(token_at(s, p) == (LexStep::Tok { kind, next: p + 1 }));
}

proof fn lemma_lex_colon(s: Seq<char>, p: int, acc: Seq<TokenView>)
    requires
        0 <= p,
        p + 1 < s.len(),
        s[p] == ':',
        s[p + 1] == ' ',
    ensures
        lex_from(s, p, acc) == lex_from(s, p + 1, acc.push(tok(TokenKindView::Colon, s, p))),
{
    assert(skip_trivia(s, p, false) == p);
    assert(!spec_is_symbol_start(' '));
    assert(colon_at(s, p) == (LexStep::Tok { kind: TokenKindView::Colon, next: p + 1 }));
    assert(token_at(s, p) == colon_at(s, p));
}

proof fn lemma_lex_space(s: Seq<char>, p: int, acc: Seq<TokenView>)
    requires
        0 <= p < s.len(),
        s[p] == ' ',
    ensures
        lex_from(s, p, acc) == lex_from(s, p + 1, acc),
{
    assert(skip_trivia(s, p, false) == skip_trivia(s, p + 1, false));
}

/// Lexing the canonical text of a tree appends the tokens of the tree and
/// goes on behind the text.
proof fn lemma_lex_tree(s: Seq<char>, p: int, e: SExprView, acc: Seq<TokenView>)
    requires
        text_at(s, p, e),
    ensures
        lex_from(s, p, acc) == lex_from(s, p + flen(e), lexed(s, p, e, acc)),
    decreases e, 0nat, 0nat,
{
    let a = acc.push(tok(open_kind(e.kind), s, p));
    lemma_lex_single(s, p, acc, open_kind(e.kind));
    let last = p + flen(e) - 1;
    match e.kind {
        SExprKindView::List(items) => {
            lemma_lex_items(s, p + 1, items, 0, a);
            lemma_lex_single(s, last, lexed_items(s, p + 1, items, 0, a), close_kind(e.kind));
        },
        SExprKindView::Vector(items) => {
            lemma_lex_items(s, p + 1, items, 0, a);
            lemma_lex_single(s, last, lexed_items(s, p + 1, items, 0, a), close_kind(e.kind));
        },
        SExprKindView::Mapping(entries) => {
            lemma_lex_entries(s, p + 1, entries, 0, a);
            lemma_lex_single(s, last, lexed_entries(s, p + 1, entries, 0, a), close_kind(e.kind));
        },
        SExprKindView::Atom(_) => {},
    }
}

proof fn lemma_lex_items(s: Seq<char>, p: int, items: Seq<SExprView>, i: int, acc: Seq<TokenView>)
    requires
        0 <= i <= items.len(),
        items_at(s, p, items, i),
    ensures
        lex_from(s, p, acc) == lex_from(
            s,
            p + items_len(items, i),
            lexed_items(s, p, items, i, acc),
        ),
    decreases items, left(items.len(), i), 1nat,
{
    if i < items.len() {
        assert(text_at(s, p, items[i]));
        assert(0 <= p);
        lemma_lex_tree(s, p, items[i], acc);
        let a = lexed(s, p, items[i], acc);
        let q = p + flen(items[i]);
        if i + 1 < items.len() {
            lemma_lex_space(s, q, a);
            lemma_lex_items(s, q + 1, items, i + 1, a);
        } else {
            lemma_lex_items(s, q, items, i + 1, a);
        }
    }
}

/// Lexing one entry: the key, the colon, the value.
proof fn lemma_lex_entry(
    s: Seq<char>,
    p: int,
    entries: Seq<(SExprView, SExprView)>,
    i: int,
    acc: Seq<TokenView>,
)
    requires
        0 <= i < entries.len(),
        text_at(s, p, entries[i].0),
        p + flen(entries[i].0) + 1 < s.len(),
        s[p + flen(entries[i].0)] == ':',
        s[p + flen(entries[i].0) + 1] == ' ',
        text_at(s, p + flen(entries[i].0) + 2, entries[i].1),
    ensures
        lex_from(s, p, acc) == lex_from(
            s,
            p + flen(entries[i].0) + 2 + flen(entries[i].1),
            lexed(
                s,
                p + flen(entries[i].0) + 2,
                entries[i].1,
                lexed(s, p, entries[i].0, acc).push(
                    tok(TokenKindView::Colon, s, p + flen(entries[i].0)),
                ),
            ),
        ),
    decreases entries, left(entries.len(), i), 0nat,
{
    let c = p + flen(entries[i].0);
    lemma_lex_tree(s, p, entries[i].0, acc);
    let k = lexed(s, p, entries[i].0, acc);
    lemma_lex_colon(s, c, k);
    let a1 = k.push(tok(TokenKindView::Colon, s, c));
    lemma_lex_space(s, c + 1, a1);
    lemma_lex_tree(s, c + 2, entries[i].1, a1);
}

proof fn lemma_lex_entries(
    s: Seq<char>,
    p: int,
    entries: Seq<(SExprView, SExprView)>,
    i: int,
    acc: Seq<TokenView>,
)
    requires
        0 <= i <= entries.len(),
        entries_at(s, p, entries, i),
    ensures
        lex_from(s, p, acc) == lex_from(
            s,
            p + entries_len(entries, i),
            lexed_entries(s, p, entries, i, acc),
        ),
    decreases entries, left(entries.len(), i), 1nat,
{
    if i < entries.len() {
        let c = p + flen(entries[i].0);
        let q = c + 2 + flen(entries[i].1);
        assert(text_at(s, p, entries[i].0));
        assert(0 <= p);
        lemma_lex_entry(s, p, entries, i, acc);
        let a1 = lexed(s, p, entries[i].0, acc).push(tok(TokenKindView::Colon, s, c));
        let a2 = lexed(s, c + 2, entries[i].1, a1);
        assert(lex_from(s, p, acc) == lex_from(s, q, a2));
        if i + 1 < entries.len() {
            lemma_lex_single(s, q, a2, TokenKindView::Comma);
            let a3 = a2.push(tok(TokenKindView::Comma, s, q));
            lemma_lex_space(s, q + 1, a3);
            lemma_lex_entries(s, q + 2, entries, i + 1, a3);
            assert(lex_from(s, q, a2) == lex_from(s, q + 2, a3));
            assert(lexed_entries(s, p, entries, i, acc) == lexed_entries(
                s,
                q + 2,
                entries,
                i + 1,
                a3,
            ));
            assert(entries_len(entries, i) == q + 2 - p + entries_len(entries, i + 1));
        } else {
            lemma_lex_entries(s, q, entries, i + 1, a2);
            assert(lexed_entries(s, p, entries, i, acc) == lexed_entries(
                s,
                q,
                entries,
                i + 1,
                a2,
            ));
            assert(entries_len(entries, i) == q - p + entries_len(entries, i + 1));
        }
    }
}

/// Number of tokens of an atom-free tree.
pub open spec fn kn(e: SExprView) -> nat
    decreases e, 0nat,
{
    match e.kind {
        SExprKindView::List(items) => 2 + items_kn(items, 0),
        SExprKindView::Vector(items) => 2 + items_kn(items, 0),
        SExprKindView::Mapping(entries) => 2 + entries_kn(entries, 0),
        SExprKindView::Atom(_) => 0,
    }
}

pub open spec fn items_kn(items: Seq<SExprView>, i: int) -> nat
    decreases items, left(items.len(), i),
{
    if 0 <= i < items.len() {
        kn(items[i]) + items_kn(items, i + 1)
    } else {
        0
    }
}

pub open spec fn entries_kn(entries: Seq<(SExprView, SExprView)>, i: int) -> nat
    decreases entries, left(entries.len(), i),
{
    if 0 <= i < entries.len() {
        kn(entries[i].0) + 1 + kn(entries[i].1) + (if i + 1 < entries.len() {
            1nat
        } else {
            0nat
        }) + entries_kn(entries, i + 1)
    } else {
        0
    }
}

/// Whether the tokens of `e` stand in `t` at `k`.
pub open spec fn toks_at(t: Seq<TokenView>, k: int, e: SExprView) -> bool
    decreases e, 0nat,
{
    &&& !(e.kind is Atom)
    &&& 0 <= k
    &&& k + kn(e) <= t.len()
    &&& t[k].kind == open_kind(e.kind)
    &&& t[k + kn(e) - 1].kind == close_kind(e.kind)
    &&& match e.kind {
        SExprKindView::List(items) => items_toks(t, k + 1, items, 0),
        SExprKindView::Vector(items) => items_toks(t, k + 1, items, 0),
        SExprKindView::Mapping(entries) => entries_toks(t, k + 1, entries, 0),
        SExprKindView::Atom(_) => false,
    }
}

pub open spec fn items_toks(t: Seq<TokenView>, k: int, items: Seq<SExprView>, i: int) -> bool
    decreases items, left(items.len(), i),
{
    if 0 <= i < items.len() {
        toks_at(t, k, items[i]) && items_toks(t, k + kn(items[i]), items, i + 1)
    } else {
        true
    }
}

pub open spec fn entries_toks(
    t: Seq<TokenView>,
    k: int,
    entries: Seq<(SExprView, SExprView)>,
    i: int,
) -> bool
    decreases entries, left(entries.len(), i),
{
    if 0 <= i < entries.len() {
        let c = k + kn(entries[i].0);
        let q = c + 1 + kn(entries[i].1);
        &&& toks_at(t, k, entries[i].0)
        &&& c < t.len()
        &&& t[c].kind == TokenKindView::Colon
        &&& toks_at(t, c + 1, entries[i].1)
        &&& (i + 1 < entries.len() ==> q < t.len() && t[q].kind == TokenKindView::Comma)
        &&& entries_toks(
            t,
            q + if i + 1 < entries.len() {
                1int
            } else {
                0int
            },
            entries,
            i + 1,
        )
    } else {
        true
    }
}

proof fn lemma_toks_at_extends(t: Seq<TokenView>, u: Seq<TokenView>, k: int, e: SExprView)
    requires
        toks_at(t, k, e),
        is_prefix(t, u),
    ensures
        toks_at(u, k, e),
    decreases e, 0nat,
{
    assert(u[k] == t[k]);
    assert(u[k + kn(e) - 1] == t[k + kn(e) - 1]);
    match e.kind {
        SExprKindView::List(items) => {
            lemma_items_toks_extends(t, u, k + 1, items, 0);
        },
        SExprKindView::Vector(items) => {
            lemma_items_toks_extends(t, u, k + 1, items, 0);
        },
        SExprKindView::Mapping(entries) => {
            lemma_entries_toks_extends(t, u, k + 1, entries, 0);
        },
        SExprKindView::Atom(_) => {},
    }
}

proof fn lemma_items_toks_extends(
    t: Seq<TokenView>,
    u: Seq<TokenView>,
    k: int,
    items: Seq<SExprView>,
    i: int,
)
    requires
        items_toks(t, k, items, i),
        is_prefix(t, u),
    ensures
        items_toks(u, k, items, i),
    decreases items, left(items.len(), i),
{
    if 0 <= i < items.len() {
        lemma_toks_at_extends(t, u, k, items[i]);
        lemma_items_toks_extends(t, u, k + kn(items[i]), items, i + 1);
    }
}

proof fn lemma_entries_toks_extends(
    t: Seq<TokenView>,
    u: Seq<TokenView>,
    k: int,
    entries: Seq<(SExprView, SExprView)>,
    i: int,
)
    requires
        entries_toks(t, k, entries, i),
        is_prefix(t, u),
    ensures
        entries_toks(u, k, entries, i),
    decreases entries, left(entries.len(), i),
{
    if 0 <= i < entries.len() {
        let c = k + kn(entries[i].0);
        let q = c + 1 + kn(entries[i].1);
        lemma_toks_at_extends(t, u, k, entries[i].0);
        assert(u[c] == t[c]);
        lemma_toks_at_extends(t, u, c + 1, entries[i].1);
        if i + 1 < entries.len() {
            assert(u[q] == t[q]);
        }
        lemma_entries_toks_extends(
            t,
            u,
            q + if i + 1 < entries.len() {
                1int
            } else {
                0int
            },
            entries,
            i + 1,
        );
    }
}

/// The tokens that lexing appends for a tree are the tokens of the tree.
proof fn lemma_lexed(s: Seq<char>, p: int, e: SExprView, acc: Seq<TokenView>)
    requires
        atom_free(e),
    ensures
        lexed(s, p, e, acc).len() == acc.len() + kn(e),
        is_prefix(acc, lexed(s, p, e, acc)),
        toks_at(lexed(s, p, e, acc), acc.len() as int, e),
    decreases e, 0nat,
{
    let a = acc.push(tok(open_kind(e.kind), s, p));
    assert(is_prefix(acc, a));
    let n = acc.len() as int;
    match e.kind {
        SExprKindView::List(items) => {
            lemma_lexed_items(s, p + 1, items, 0, a);
            let b = lexed_items(s, p + 1, items, 0, a);
            let all = b.push(tok(close_kind(e.kind), s, p + flen(e) - 1));
            assert(is_prefix(b, all));
            lemma_prefix_trans(a, b, all);
            lemma_prefix_trans(acc, a, all);
            assert(all[n] == a[n]);
            lemma_items_toks_extends(b, all, n + 1, items, 0);
        },
        SExprKindView::Vector(items) => {
            lemma_lexed_items(s, p + 1, items, 0, a);
            let b = lexed_items(s, p + 1, items, 0, a);
            let all = b.push(tok(close_kind(e.kind), s, p + flen(e) - 1));
            assert(is_prefix(b, all));
            lemma_prefix_trans(a, b, all);
            lemma_prefix_trans(acc, a, all);
            assert(all[n] == a[n]);
            lemma_items_toks_extends(b, all, n + 1, items, 0);
        },
        SExprKindView::Mapping(entries) => {
            lemma_lexed_entries(s, p + 1, entries, 0, a);
            let b = lexed_entries(s, p + 1, entries, 0, a);
            let all = b.push(tok(close_kind(e.kind), s, p + flen(e) - 1));
            assert(is_prefix(b, all));
            lemma_prefix_trans(a, b, all);
            lemma_prefix_trans(acc, a, all);
            assert(all[n] == a[n]);
            lemma_entries_toks_extends(b, all, n + 1, entries, 0);
        },
        SExprKindView::Atom(_) => {},
    }
}

proof fn lemma_lexed_items(
    s: Seq<char>,
    p: int,
    items: Seq<SExprView>,
    i: int,
    acc: Seq<TokenView>,
)
    requires
        0 <= i <= items.len(),
        items_free(items, i),
    ensures
        lexed_items(s, p, items, i, acc).len() == acc.len() + items_kn(items, i),
        is_prefix(acc, lexed_items(s, p, items, i, acc)),
        items_toks(lexed_items(s, p, items, i, acc), acc.len() as int, items, i),
    decreases items, left(items.len(), i),
{
    if i < items.len() {
        lemma_lexed(s, p, items[i], acc);
        let a = lexed(s, p, items[i], acc);
        let q = p + flen(items[i]) + if i + 1 < items.len() {
            1int
        } else {
            0int
        };
        lemma_lexed_items(s, q, items, i + 1, a);
        let all = lexed_items(s, q, items, i + 1, a);
        assert(all == lexed_items(s, p, items, i, acc));
        lemma_prefix_trans(acc, a, all);
        lemma_toks_at_extends(a, all, acc.len() as int, items[i]);
        assert(items_toks(all, (acc.len() + kn(items[i])) as int, items, i + 1));
    }
}

proof fn lemma_lexed_entries(
    s: Seq<char>,
    p: int,
    entries: Seq<(SExprView, SExprView)>,
    i: int,
    acc: Seq<TokenView>,
)
    requires
        0 <= i <= entries.len(),
        entries_free(entries, i),
    ensures
        lexed_entries(s, p, entries, i, acc).len() == acc.len() + entries_kn(entries, i),
        is_prefix(acc, lexed_entries(s, p, entries, i, acc)),
        entries_toks(lexed_entries(s, p, entries, i, acc), acc.len() as int, entries, i),
    decreases entries, left(entries.len(), i),
{
    if i < entries.len() {
        let n = acc.len() as int;
        let c = p + flen(entries[i].0);
        let q = c + 2 + flen(entries[i].1);
        lemma_lexed(s, p, entries[i].0, acc);
        let k = lexed(s, p, entries[i].0, acc);
        let a1 = k.push(tok(TokenKindView::Colon, s, c));
        assert(is_prefix(k, a1));
        lemma_lexed(s, c + 2, entries[i].1, a1);
        let a2 = lexed(s, c + 2, entries[i].1, a1);
        let a3 = if i + 1 < entries.len() {
            a2.push(tok(TokenKindView::Comma, s, q))
        } else {
            a2
        };
        assert(is_prefix(a2, a3));
        let next = if i + 1 < entries.len() {
            q + 2
        } else {
            q
        };
        lemma_lexed_entries(s, next, entries, i + 1, a3);
        let all = lexed_entries(s, next, entries, i + 1, a3);
        assert(all == lexed_entries(s, p, entries, i, acc));
        lemma_prefix_trans(a2, a3, all);
        lemma_prefix_trans(a1, a2, all);
        lemma_prefix_trans(k, a1, all);
        lemma_prefix_trans(acc, k, all);
        lemma_toks_at_extends(k, all, n, entries[i].0);
        lemma_toks_at_extends(a2, all, a1.len() as int, entries[i].1);
        let tc = n + kn(entries[i].0);
        let tq = tc + 1 + kn(entries[i].1);
        assert(k.len() == tc);
        assert(a1[tc].kind == TokenKindView::Colon);
        assert(all[tc] == a1[tc]);
        assert(a2.len() == tq);
        if i + 1 < entries.len() {
            assert(a3[tq].kind == TokenKindView::Comma);
            assert(all[tq] == a3[tq]);
            assert(entries_toks(all, tq + 1, entries, i + 1));
        } else {
            assert(entries_toks(all, tq + 0, entries, i + 1));
        }
        assert(toks_at(all, n, entries[i].0));
        assert(toks_at(all, tc + 1, entries[i].1));
    }
}


/// Whether reading at `k` gives a tree of the shape of `e` and passes its tokens.
pub open spec fn reads_as(t: Seq<TokenView>, k: int, e: SExprView) -> bool {
    parse_expr(t, k) matches ParseStep::Node { expr, more } && more == kn(e) - 1 && shape(expr)
        == shape(e)
}

/// Reading the tokens of a tree gives a tree of the same shape.
proof fn lemma_parse_tree(t: Seq<TokenView>, k: int, e: SExprView)
    requires
        toks_at(t, k, e),
    ensures
        reads_as(t, k, e),
    decreases e, 0nat,
{
    assert(kind_at(t, k) == open_kind(e.kind));
    let last = k + kn(e) - 1;
    assert(kind_at(t, last) == close_kind(e.kind));
    match e.kind {
        SExprKindView::List(items) => {
            assert(last == k + 1 + items_kn(items, 0));
            lemma_parse_items(t, k + 1, items, 0, TokenKindView::RParen, Seq::empty());
            let r = parse_items(t, k + 1, TokenKindView::RParen, Seq::empty());
            let res = r->items;
            assert(shapes(res) =~= shapes(items));
        },
        SExprKindView::Vector(items) => {
            assert(last == k + 1 + items_kn(items, 0));
            lemma_parse_items(t, k + 1, items, 0, TokenKindView::RBracket, Seq::empty());
            let r = parse_items(t, k + 1, TokenKindView::RBracket, Seq::empty());
            let res = r->items;
            assert(shapes(res) =~= shapes(items));
        },
        SExprKindView::Mapping(entries) => {
            assert(last == k + 1 + entries_kn(entries, 0));
            lemma_parse_entries(t, k + 1, entries, 0, Seq::empty());
            let r = parse_entries(t, k + 1, Seq::empty());
            let res = r->entries;
            assert(pair_shapes(res) =~= pair_shapes(entries));
        },
        SExprKindView::Atom(_) => {},
    }
}

proof fn lemma_parse_items(
    t: Seq<TokenView>,
    k: int,
    items: Seq<SExprView>,
    i: int,
    close: TokenKindView,
    acc: Seq<SExprView>,
)
    requires
        0 <= i <= items.len(),
        0 <= k,
        items_toks(t, k, items, i),
        close == TokenKindView::RParen || close == TokenKindView::RBracket,
        kind_at(t, k + items_kn(items, i)) == close,
    ensures
        parse_items(t, k, close, acc) matches ItemsStep::Items { items: res, next } && next == k
            + items_kn(items, i) && res.len() == acc.len() + items.len() - i && is_prefix(acc, res)
            && (forall|m: int|
            acc.len() <= m < res.len() ==> shape(#[trigger] res[m]) == shape(
                items[m - acc.len() + i],
            )),
    decreases items, left(items.len(), i),
{
    if i < items.len() {
        lemma_parse_tree(t, k, items[i]);
        assert(kind_at(t, k) == open_kind(items[i].kind));
        let x = parse_expr(t, k)->expr;
        let more = parse_expr(t, k)->more;
        let next_acc = acc.push(x);
        assert(k + 1 + more == k + kn(items[i]));
        lemma_parse_items(t, k + kn(items[i]), items, i + 1, close, next_acc);
        let r = parse_items(t, k + kn(items[i]), close, next_acc);
        assert(parse_items(t, k, close, acc) == r);
        let res = r->items;
        assert(is_prefix(acc, next_acc));
        lemma_prefix_trans(acc, next_acc, res);
        assert(res[acc.len() as int] == next_acc[acc.len() as int]);
        assert forall|m: int| acc.len() <= m < res.len() implies shape(#[trigger] res[m])
            == shape(items[m - acc.len() + i]) by {
            if m > acc.len() {
                assert(m - next_acc.len() + (i + 1) == m - acc.len() + i);
            }
        }
    }
}

proof fn lemma_parse_entries(
    t: Seq<TokenView>,
    k: int,
    entries: Seq<(SExprView, SExprView)>,
    i: int,
    acc: Seq<(SExprView, SExprView)>,
)
    requires
        0 <= i <= entries.len(),
        0 <= k,
        entries_toks(t, k, entries, i),
        kind_at(t, k + entries_kn(entries, i)) == TokenKindView::RBrace,
    ensures
        parse_entries(t, k, acc) matches EntriesStep::Entries { entries: res, next } && next == k
            + entries_kn(entries, i) && res.len() == acc.len() + entries.len() - i && is_prefix(
            acc,
            res,
        ) && (forall|m: int|
            acc.len() <= m < res.len() ==> shape((#[trigger] res[m]).0) == shape(
                entries[m - acc.len() + i].0,
            ) && shape(res[m].1) == shape(entries[m - acc.len() + i].1)),
    decreases entries, left(entries.len(), i),
{
    if i < entries.len() {
        let c = k + kn(entries[i].0);
        let q = c + 1 + kn(entries[i].1);
        lemma_parse_tree(t, k, entries[i].0);
        assert(kind_at(t, k) == open_kind(entries[i].0.kind));
        let key = parse_expr(t, k)->expr;
        assert(k + 1 + parse_expr(t, k)->more == c);
        assert(kind_at(t, c) == TokenKindView::Colon);
        assert(skip_sep(t, c, TokenKindView::Colon) == c + 1);
        lemma_parse_tree(t, c + 1, entries[i].1);
        let value = parse_expr(t, c + 1)->expr;
        assert(c + 1 + 1 + parse_expr(t, c + 1)->more == q);
        let next_acc = acc.push((key, value));
        let next = if i + 1 < entries.len() {
            q + 1
        } else {
            q
        };
        if i + 1 < entries.len() {
            assert(kind_at(t, q) == TokenKindView::Comma);
        } else {
            assert(entries_kn(entries, i + 1) == 0);
            assert(kind_at(t, q) == TokenKindView::RBrace);
        }
        assert(skip_sep(t, q, TokenKindView::Comma) == next);
        lemma_parse_entries(t, next, entries, i + 1, next_acc);
        let r = parse_entries(t, next, next_acc);
        assert(parse_entries(t, k, acc) == r);
        let res = r->entries;
        assert(is_prefix(acc, next_acc));
        lemma_prefix_trans(acc, next_acc, res);
        assert(res[acc.len() as int] == next_acc[acc.len() as int]);
        assert forall|m: int| acc.len() <= m < res.len() implies shape((#[trigger] res[m]).0)
            == shape(entries[m - acc.len() + i].0) && shape(res[m].1) == shape(
            entries[m - acc.len() + i].1,
        ) by {
            if m > acc.len() {
                assert(m - next_acc.len() + (i + 1) == m - acc.len() + i);
            }
        }
    }
}

/// CST round trip: the canonical text of a tree that holds no atom lexes,
/// and its tokens read as exactly one tree, of the same shape.
pub proof fn lemma_cst_round_trip(e: SExprView)
    requires
        atom_free(e),
    ensures
        lex(format_spec(e)) matches LexOutcome::Tokens(toks) && parse(toks) matches ParseOutcome::Program(
            exprs,
        ) && exprs.len() == 1 && shape(exprs[0]) == shape(e),
{
    let s = format_spec(e);
    lemma_format_into(Seq::empty(), e);
    lemma_lex_tree(s, 0, e, Seq::empty());
    let l = lexed(s, 0, e, Seq::empty());
    lemma_lexed(s, 0, e, Seq::empty());
    let n = s.len() as int;
    assert(n == flen(e));
    let eof = TokenView { kind: TokenKindView::Eof, start: boff(s, n) as int, end: boff(s, n) as int };
    assert(skip_trivia(s, n, false) == n);
    assert(lex_from(s, n, l) == LexOutcome::Tokens(l.push(eof)));
    let t = l.push(eof);
    assert(lex(s) == LexOutcome::Tokens(t));
    assert(is_prefix(l, t));
    lemma_toks_at_extends(l, t, 0, e);
    lemma_parse_tree(t, 0, e);
    let x = parse_expr(t, 0)->expr;
    let k = kn(e) as int;
    assert(l.len() == k);
    assert(kind_at(t, 0) == open_kind(e.kind));
    assert(kind_at(t, k) == TokenKindView::Eof);
    assert(parse_from(t, k, Seq::<SExprView>::empty().push(x)) == ParseOutcome::Program(
        Seq::<SExprView>::empty().push(x),
    ));
    assert(parse_from(t, 0, Seq::empty()) == parse_from(
        t,
        k,
        Seq::<SExprView>::empty().push(x),
    ));
}

} // verus!

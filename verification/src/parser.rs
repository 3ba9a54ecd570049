//! Reader: tokens to a generic S-expression tree.

use vstd::prelude::*;
use vstd::string::StringExecFns;
use crate::lexer::{Span, Token, TokenKind, TokenKindView, TokenView, DurationUnit, tokens_view};
use crate::text::{dec, push_usize};

verus! {

/// Leaf of the tree: one scalar token.
#[derive(Debug, Clone, PartialEq)]
pub enum AtomKind {
    Symbol(String),
    Keyword(String),
    StringLit(String),
    IntLit(i64),
    BoolLit(bool),
    DurationLit(u64, DurationUnit),
    RegexLit(String),
}

pub ghost enum AtomView {
    Symbol(Seq<char>),
    Keyword(Seq<char>),
    StringLit(Seq<char>),
    IntLit(i64),
    BoolLit(bool),
    DurationLit(u64, DurationUnit),
    RegexLit(Seq<char>),
}

impl View for AtomKind {
    type V = AtomView;

    open spec fn view(&self) -> AtomView {
        match self {
            AtomKind::Symbol(s) => AtomView::Symbol(s@),
            AtomKind::Keyword(s) => AtomView::Keyword(s@),
            AtomKind::StringLit(s) => AtomView::StringLit(s@),
            AtomKind::IntLit(n) => AtomView::IntLit(*n),
            AtomKind::BoolLit(b) => AtomView::BoolLit(*b),
            AtomKind::DurationLit(n, u) => AtomView::DurationLit(*n, *u),
            AtomKind::RegexLit(s) => AtomView::RegexLit(s@),
        }
    }
}

/// Concrete syntax tree node: balanced structure with atoms, no semantics.
#[derive(Debug, PartialEq)]
pub struct SExpr {
    pub kind: SExprKind,
    pub span: Span,
}

#[derive(Debug, PartialEq)]
pub enum SExprKind {
    /// `(a b c ...)`
    List(Vec<SExpr>),
    /// `[a b c ...]`
    Vector(Vec<SExpr>),
    /// `{k1: v1, k2: v2, ...}` or `{k1 v1 k2 v2 ...}`
    Mapping(Vec<(SExpr, SExpr)>),
    /// Leaf token
    Atom(AtomKind),
}

pub ghost struct SExprView {
    pub kind: SExprKindView,
    pub start: int,
    pub end: int,
}

pub ghost enum SExprKindView {
    List(Seq<SExprView>),
    Vector(Seq<SExprView>),
    Mapping(Seq<(SExprView, SExprView)>),
    Atom(AtomView),
}

impl SExprKind {
    pub open spec fn model(self) -> SExprKindView
        decreases self,
    {
        match self {
            SExprKind::List(items) => SExprKindView::List(sexprs_view(items@)),
            SExprKind::Vector(items) => SExprKindView::Vector(sexprs_view(items@)),
            SExprKind::Mapping(entries) => SExprKindView::Mapping(entries_view(entries@)),
            SExprKind::Atom(a) => SExprKindView::Atom(a@),
        }
    }
}

impl SExpr {
    pub open spec fn model(self) -> SExprView
        decreases self,
    {
        SExprView {
            kind: self.kind.model(),
            start: self.span.start as int,
            end: self.span.end as int,
        }
    }
}

impl View for SExprKind {
    type V = SExprKindView;

    open spec fn view(&self) -> SExprKindView {
        self.model()
    }
}

impl View for SExpr {
    type V = SExprView;

    open spec fn view(&self) -> SExprView {
        self.model()
    }
}

/// The views of a sequence of nodes.
pub open spec fn sexprs_view(items: Seq<SExpr>) -> Seq<SExprView>
    decreases items,
{
    Seq::new(items.len(), |i: int| if 0 <= i < items.len() { items[i].model() } else { arbitrary() })
}

/// The views of a sequence of key/value pairs.
pub open spec fn entries_view(entries: Seq<(SExpr, SExpr)>) -> Seq<(SExprView, SExprView)>
    decreases entries,
{
    Seq::new(
        entries.len(),
        |i: int|
            if 0 <= i < entries.len() {
                (entries[i].0.model(), entries[i].1.model())
            } else {
                arbitrary()
            },
    )
}

pub broadcast proof fn lemma_sexprs_view_push(items: Seq<SExpr>, x: SExpr)
    ensures
        #[trigger] sexprs_view(items.push(x)) == sexprs_view(items).push(x@),
{
    assert(sexprs_view(items.push(x)) =~= sexprs_view(items).push(x@));
}

pub broadcast proof fn lemma_entries_view_push(entries: Seq<(SExpr, SExpr)>, p: (SExpr, SExpr))
    ensures
        #[trigger] entries_view(entries.push(p)) == entries_view(entries).push((p.0@, p.1@)),
{
    assert(entries_view(entries.push(p)) =~= entries_view(entries).push((p.0@, p.1@)));
}

pub broadcast proof fn lemma_sexprs_view_empty()
    ensures
        #[trigger] sexprs_view(Seq::<SExpr>::empty()) == Seq::<SExprView>::empty(),
{
    assert(sexprs_view(Seq::<SExpr>::empty()) =~= Seq::<SExprView>::empty());
}

pub broadcast proof fn lemma_entries_view_empty()
    ensures
        #[trigger] entries_view(Seq::<(SExpr, SExpr)>::empty()) == Seq::<
            (SExprView, SExprView),
        >::empty(),
{
    assert(entries_view(Seq::<(SExpr, SExpr)>::empty()) =~= Seq::<(SExprView, SExprView)>::empty());
}

pub broadcast group group_sexpr_views {
    lemma_sexprs_view_empty,
    lemma_entries_view_empty,
    lemma_sexprs_view_push,
    lemma_entries_view_push,
}

impl SExpr {
    pub fn new(kind: SExprKind, span: Span) -> (e: SExpr)
        ensures
            e.kind == kind,
            e.span == span,
    {
        SExpr { kind, span }
    }

    pub fn as_symbol(&self) -> (r: Option<&str>)
        ensures
            match r {
                Some(s) => self@.kind == SExprKindView::Atom(AtomView::Symbol(s@)),
                None => !(self@.kind matches SExprKindView::Atom(AtomView::Symbol(_))),
            },
    {
        match &self.kind {
            SExprKind::Atom(AtomKind::Symbol(s)) => Some(s.as_str()),
            _ => None,
        }
    }

    pub fn as_keyword(&self) -> (r: Option<&str>)
        ensures
            match r {
                Some(s) => self@.kind == SExprKindView::Atom(AtomView::Keyword(s@)),
                None => !(self@.kind matches SExprKindView::Atom(AtomView::Keyword(_))),
            },
    {
        match &self.kind {
            SExprKind::Atom(AtomKind::Keyword(s)) => Some(s.as_str()),
            _ => None,
        }
    }

    pub fn as_string(&self) -> (r: Option<&str>)
        ensures
            match r {
                Some(s) => self@.kind == SExprKindView::Atom(AtomView::StringLit(s@)),
                None => !(self@.kind matches SExprKindView::Atom(AtomView::StringLit(_))),
            },
    {
        match &self.kind {
            SExprKind::Atom(AtomKind::StringLit(s)) => Some(s.as_str()),
            _ => None,
        }
    }

    pub fn as_int(&self) -> (r: Option<i64>)
        ensures
            match r {
                Some(n) => self@.kind == SExprKindView::Atom(AtomView::IntLit(n)),
                None => !(self@.kind matches SExprKindView::Atom(AtomView::IntLit(_))),
            },
    {
        match &self.kind {
            SExprKind::Atom(AtomKind::IntLit(n)) => Some(*n),
            _ => None,
        }
    }

    pub fn as_bool(&self) -> (r: Option<bool>)
        ensures
            match r {
                Some(b) => self@.kind == SExprKindView::Atom(AtomView::BoolLit(b)),
                None => !(self@.kind matches SExprKindView::Atom(AtomView::BoolLit(_))),
            },
    {
        match &self.kind {
            SExprKind::Atom(AtomKind::BoolLit(b)) => Some(*b),
            _ => None,
        }
    }

    /// The children of a list node.
    pub fn list_items(&self) -> (r: Option<&Vec<SExpr>>)
        ensures
            match r {
                Some(items) => self.kind == SExprKind::List(*items) && self@.kind
                    == SExprKindView::List(sexprs_view(items@)),
                None => !(self.kind is List) && !(self@.kind is List),
            },
    {
        match &self.kind {
            SExprKind::List(items) => Some(items),
            _ => None,
        }
    }

    /// The children of a vector node.
    pub fn vector_items(&self) -> (r: Option<&Vec<SExpr>>)
        ensures
            match r {
                Some(items) => self.kind == SExprKind::Vector(*items) && self@.kind
                    == SExprKindView::Vector(sexprs_view(items@)),
                None => !(self.kind is Vector) && !(self@.kind is Vector),
            },
    {
        match &self.kind {
            SExprKind::Vector(items) => Some(items),
            _ => None,
        }
    }

    /// The key/value pairs of a map node.
    pub fn map_entries(&self) -> (r: Option<&Vec<(SExpr, SExpr)>>)
        ensures
            match r {
                Some(entries) => self.kind == SExprKind::Mapping(*entries) && self@.kind
                    == SExprKindView::Mapping(entries_view(entries@)),
                None => !(self.kind is Mapping) && !(self@.kind is Mapping),
            },
    {
        match &self.kind {
            SExprKind::Mapping(entries) => Some(entries),
            _ => None,
        }
    }

    /// The value and unit of a duration atom.
    pub fn as_duration(&self) -> (r: Option<(u64, DurationUnit)>)
        ensures
            match r {
                Some((n, u)) => self@.kind == SExprKindView::Atom(AtomView::DurationLit(n, u)),
                None => !(self@.kind matches SExprKindView::Atom(AtomView::DurationLit(_, _))),
            },
    {
        match &self.kind {
            SExprKind::Atom(AtomKind::DurationLit(n, u)) => Some((*n, *u)),
            _ => None,
        }
    }

    pub fn as_list(&self) -> (r: Option<&[SExpr]>)
        ensures
            match r {
                Some(items) => self.kind matches SExprKind::List(v) && v@ == items@ && self@.kind
                    == SExprKindView::List(sexprs_view(items@)),
                None => !(self.kind is List) && !(self@.kind is List),
            },
    {
        match &self.kind {
            SExprKind::List(items) => {
                Some(items.as_slice())
            },
            _ => None,
        }
    }

    pub fn as_vector(&self) -> (r: Option<&[SExpr]>)
        ensures
            match r {
                Some(items) => self.kind matches SExprKind::Vector(v) && v@ == items@ && self@.kind
                    == SExprKindView::Vector(sexprs_view(items@)),
                None => !(self.kind is Vector) && !(self@.kind is Vector),
            },
    {
        match &self.kind {
            SExprKind::Vector(items) => {
                Some(items.as_slice())
            },
            _ => None,
        }
    }

    pub fn as_map(&self) -> (r: Option<&[(SExpr, SExpr)]>)
        ensures
            match r {
                Some(entries) => self.kind matches SExprKind::Mapping(v) && v@ == entries@ && self@.kind
                    == SExprKindView::Mapping(entries_view(entries@)),
                None => !(self.kind is Mapping) && !(self@.kind is Mapping),
            },
    {
        match &self.kind {
            SExprKind::Mapping(entries) => {
                Some(entries.as_slice())
            },
            _ => None,
        }
    }
}


/// Kind of the token at `pos`; past the end it is the end-of-stream sentinel.
pub open spec fn kind_at(toks: Seq<TokenView>, pos: int) -> TokenKindView {
    if 0 <= pos < toks.len() {
        toks[pos].kind
    } else {
        TokenKindView::Eof
    }
}

/// Start offset of the token at `pos`; past the end it is zero.
pub open spec fn start_at(toks: Seq<TokenView>, pos: int) -> int {
    if 0 <= pos < toks.len() {
        toks[pos].start
    } else {
        0
    }
}

/// End offset of the token at `pos`; past the end it is zero.
pub open spec fn end_at(toks: Seq<TokenView>, pos: int) -> int {
    if 0 <= pos < toks.len() {
        toks[pos].end
    } else {
        0
    }
}

/// The atom that a scalar token stands for.
pub open spec fn atom_of(kind: TokenKindView) -> Option<AtomView> {
    match kind {
        TokenKindView::Symbol(s) => Some(AtomView::Symbol(s)),
        TokenKindView::Keyword(s) => Some(AtomView::Keyword(s)),
        TokenKindView::StringLit(s) => Some(AtomView::StringLit(s)),
        TokenKindView::IntLit(n) => Some(AtomView::IntLit(n)),
        TokenKindView::BoolLit(b) => Some(AtomView::BoolLit(b)),
        TokenKindView::DurationLit(n, u) => Some(AtomView::DurationLit(n, u)),
        TokenKindView::RegexLit(s) => Some(AtomView::RegexLit(s)),
        _ => None,
    }
}

/// Name of a token kind as it appears in messages.
pub open spec fn kind_name(kind: TokenKindView) -> Seq<char> {
    match kind {
        TokenKindView::LParen => "LParen"@,
        TokenKindView::RParen => "RParen"@,
        TokenKindView::LBracket => "LBracket"@,
        TokenKindView::RBracket => "RBracket"@,
        TokenKindView::LBrace => "LBrace"@,
        TokenKindView::RBrace => "RBrace"@,
        TokenKindView::Colon => "Colon"@,
        TokenKindView::Comma => "Comma"@,
        TokenKindView::Eof => "Eof"@,
        _ => "atom"@,
    }
}

/// One node read from the token stream, with the number of tokens that
/// follow its first token, or a failure.
pub ghost enum ParseStep {
    Node { expr: SExprView, more: nat },
    Fail { msg: Seq<char> },
}

/// The children of a container up to its closing delimiter, which stands at
/// `next`, or a failure.
pub ghost enum ItemsStep {
    Items { items: Seq<SExprView>, next: int },
    Fail { msg: Seq<char> },
}

pub ghost enum EntriesStep {
    Entries { entries: Seq<(SExprView, SExprView)>, next: int },
    Fail { msg: Seq<char> },
}

/// The message for a container that the input ends in.
pub open spec fn unclosed_msg(toks: Seq<TokenView>, close: TokenKindView, at: int) -> Seq<char> {
    "expected "@ + kind_name(close) + ", got "@ + kind_name(kind_at(toks, at)) + " at byte "@ + dec(
        start_at(toks, at) as nat,
    )
}

/// Closes a container whose children end at `next`.
pub open spec fn close_node(
    toks: Seq<TokenView>,
    pos: int,
    next: int,
    close: TokenKindView,
    kind: SExprKindView,
) -> ParseStep {
    if kind_at(toks, next) == close {
        ParseStep::Node {
            expr: SExprView { kind, start: start_at(toks, pos), end: end_at(toks, next) },
            more: (next - pos) as nat,
        }
    } else {
        ParseStep::Fail { msg: unclosed_msg(toks, close, next) }
    }
}

/// Number of tokens from `pos` on.
pub open spec fn remaining(toks: Seq<TokenView>, pos: int) -> nat {
    if pos < toks.len() {
        (toks.len() - pos) as nat
    } else {
        0
    }
}

/// The node that starts at `pos`.
pub open spec fn parse_expr(toks: Seq<TokenView>, pos: int) -> ParseStep
    decreases remaining(toks, pos), 0nat,
{
    match kind_at(toks, pos) {
        TokenKindView::LParen => match parse_items(
            toks,
            pos + 1,
            TokenKindView::RParen,
            Seq::empty(),
        ) {
            ItemsStep::Items { items, next } => close_node(
                toks,
                pos,
                next,
                TokenKindView::RParen,
                SExprKindView::List(items),
            ),
            ItemsStep::Fail { msg } => ParseStep::Fail { msg },
        },
        TokenKindView::LBracket => match parse_items(
            toks,
            pos + 1,
            TokenKindView::RBracket,
            Seq::empty(),
        ) {
            ItemsStep::Items { items, next } => close_node(
                toks,
                pos,
                next,
                TokenKindView::RBracket,
                SExprKindView::Vector(items),
            ),
            ItemsStep::Fail { msg } => ParseStep::Fail { msg },
        },
        TokenKindView::LBrace => match parse_entries(toks, pos + 1, Seq::empty()) {
            EntriesStep::Entries { entries, next } => close_node(
                toks,
                pos,
                next,
                TokenKindView::RBrace,
                SExprKindView::Mapping(entries),
            ),
            EntriesStep::Fail { msg } => ParseStep::Fail { msg },
        },
        TokenKindView::RParen | TokenKindView::RBracket | TokenKindView::RBrace => ParseStep::Fail {
            msg: "unexpected closing delimiter at byte "@ + dec(start_at(toks, pos) as nat),
        },
        TokenKindView::Eof => ParseStep::Fail { msg: "unexpected end of input"@ },
        other => match atom_of(other) {
            Some(a) => ParseStep::Node {
                expr: SExprView {
                    kind: SExprKindView::Atom(a),
                    start: start_at(toks, pos),
                    end: end_at(toks, pos),
                },
                more: 0,
            },
            None => ParseStep::Fail {
                msg: "unexpected token "@ + kind_name(other) + " at byte "@ + dec(
                    start_at(toks, pos) as nat,
                ),
            },
        },
    }
}

/// The children from `pos` up to the delimiter `close` or the end of input,
/// appended to `acc`.
pub open spec fn parse_items(
    toks: Seq<TokenView>,
    pos: int,
    close: TokenKindView,
    acc: Seq<SExprView>,
) -> ItemsStep
    decreases remaining(toks, pos), 1nat,
{
    if kind_at(toks, pos) == close || kind_at(toks, pos) == TokenKindView::Eof {
        ItemsStep::Items { items: acc, next: pos }
    } else {
        match parse_expr(toks, pos) {
            ParseStep::Node { expr, more } => parse_items(
                toks,
                pos + 1 + more,
                close,
                acc.push(expr),
            ),
            ParseStep::Fail { msg } => ItemsStep::Fail { msg },
        }
    }
}

/// Position after an optional separator of kind `sep` at `pos`.
pub open spec fn skip_sep(toks: Seq<TokenView>, pos: int, sep: TokenKindView) -> int {
    if kind_at(toks, pos) == sep {
        pos + 1
    } else {
        pos
    }
}

/// The key/value pairs from `pos` up to the closing brace or the end of
/// input, appended to `acc`. A `:` may follow a key and a `,` a value.
pub open spec fn parse_entries(
    toks: Seq<TokenView>,
    pos: int,
    acc: Seq<(SExprView, SExprView)>,
) -> EntriesStep
    decreases remaining(toks, pos), 1nat,
{
    if kind_at(toks, pos) == TokenKindView::RBrace || kind_at(toks, pos) == TokenKindView::Eof {
        EntriesStep::Entries { entries: acc, next: pos }
    } else {
        match parse_expr(toks, pos) {
            ParseStep::Node { expr: key, more } => {
                let value_at = skip_sep(toks, pos + 1 + more, TokenKindView::Colon);
                match parse_expr(toks, value_at) {
                    ParseStep::Node { expr: value, more: more2 } => parse_entries(
                        toks,
                        skip_sep(toks, value_at + 1 + more2, TokenKindView::Comma),
                        acc.push((key, value)),
                    ),
                    ParseStep::Fail { msg } => EntriesStep::Fail { msg },
                }
            },
            ParseStep::Fail { msg } => EntriesStep::Fail { msg },
        }
    }
}

/// Outcome of reading a whole token stream.
pub ghost enum ParseOutcome {
    Program(Seq<SExprView>),
    Failed(Seq<char>),
}

/// The top-level nodes from `pos` up to the end of input, appended to `acc`.
pub open spec fn parse_from(toks: Seq<TokenView>, pos: int, acc: Seq<SExprView>) -> ParseOutcome
    decreases remaining(toks, pos),
{
    if kind_at(toks, pos) == TokenKindView::Eof {
        ParseOutcome::Program(acc)
    } else {
        match parse_expr(toks, pos) {
            ParseStep::Node { expr, more } => parse_from(toks, pos + 1 + more, acc.push(expr)),
            ParseStep::Fail { msg } => ParseOutcome::Failed(msg),
        }
    }
}

/// The top-level nodes of a whole token stream.
pub open spec fn parse(toks: Seq<TokenView>) -> ParseOutcome {
    parse_from(toks, 0, Seq::empty())
}

/// Whether `r` is what the reader step `step` prescribes, having moved from
/// `pos` to `next`.
pub open spec fn node_matches(r: Result<SExpr, String>, step: ParseStep, pos: int, next: int) -> bool {
    match r {
        Ok(e) => step == (ParseStep::Node { expr: e@, more: (next - pos - 1) as nat }) && next > pos,
        Err(m) => step == (ParseStep::Fail { msg: m@ }),
    }
}

pub open spec fn program_matches(r: Result<Vec<SExpr>, String>, out: ParseOutcome) -> bool {
    match r {
        Ok(es) => out == ParseOutcome::Program(sexprs_view(es@)),
        Err(m) => out == ParseOutcome::Failed(m@),
    }
}

pub struct Parser {
    tokens: Vec<Token>,
    pos: usize,
}

/// Name of a token kind as it appears in messages.
fn kind_label(kind: &TokenKind) -> (s: &'static str)
    ensures
        s@ == kind_name(kind@),
{
    match kind {
        TokenKind::LParen => "LParen",
        TokenKind::RParen => "RParen",
        TokenKind::LBracket => "LBracket",
        TokenKind::RBracket => "RBracket",
        TokenKind::LBrace => "LBrace",
        TokenKind::RBrace => "RBrace",
        TokenKind::Colon => "Colon",
        TokenKind::Comma => "Comma",
        TokenKind::Eof => "Eof",
        _ => "atom",
    }
}

impl Parser {
    /// The token stream.
    pub closed spec fn stream(&self) -> Seq<TokenView> {
        tokens_view(self.tokens@)
    }

    /// Index of the next token to read.
    pub closed spec fn position(&self) -> int {
        self.pos as int
    }

    /// The position lies inside the stream or at its end.
    pub closed spec fn wf(&self) -> bool {
        self.pos <= self.tokens.len()
    }

    pub fn new(tokens: Vec<Token>) -> (p: Parser)
        ensures
            p.wf(),
            p.stream() == tokens_view(tokens@),
            p.position() == 0,
    {
        Parser { tokens, pos: 0 }
    }

    /// Reads all top-level nodes up to the end of input.
    pub fn parse_program(&mut self) -> (r: Result<Vec<SExpr>, String>)
        requires
            old(self).wf(),
        ensures
            final(self).wf(),
            final(self).stream() == old(self).stream(),
            program_matches(r, parse_from(old(self).stream(), old(self).position(), Seq::empty())),
    {
        broadcast use group_sexpr_views;

        let mut exprs: Vec<SExpr> = Vec::new();
        let ghost toks = self.stream();
        let ghost goal = parse_from(toks, self.pos as int, Seq::empty());
        while !self.at_eof()
            invariant
                self.wf(),
                self.tokens == old(self).tokens,
                parse_from(toks, self.pos as int, sexprs_view(exprs@)) == goal,
            decreases self.tokens.len() - self.pos,
        {
            match self.parse_sexpr() {
                Ok(e) => {
                    exprs.push(e);
                },
                Err(m) => {
                    return Err(m);
                },
            }
        }
        Ok(exprs)
    }

    fn parse_sexpr(&mut self) -> (r: Result<SExpr, String>)
        requires
            old(self).wf(),
        ensures
            final(self).wf(),
            final(self).tokens == old(self).tokens,
            node_matches(
                r,
                parse_expr(old(self).stream(), old(self).pos as int),
                old(self).pos as int,
                final(self).pos as int,
            ),
        decreases old(self).tokens.len() - old(self).pos, 0nat,
    {
        if self.pos >= self.tokens.len() {
            return Err(String::from_str("unexpected end of input"));
        }
        match &self.tokens[self.pos].kind {
            TokenKind::LParen => self.parse_list(),
            TokenKind::LBracket => self.parse_vector(),
            TokenKind::LBrace => self.parse_map(),
            TokenKind::RParen | TokenKind::RBracket | TokenKind::RBrace => {
                let mut msg = String::from_str("unexpected closing delimiter at byte ");
                push_usize(&mut msg, self.tokens[self.pos].span.start);
                Err(msg)
            },
            TokenKind::Eof => Err(String::from_str("unexpected end of input")),
            _ => self.parse_atom(),
        }
    }

    /// Reads children up to the delimiter `close` or the end of input.
    fn parse_children(&mut self, close: &TokenKind) -> (r: Result<Vec<SExpr>, String>)
        requires
            old(self).wf(),
            close@ == TokenKindView::RParen || close@ == TokenKindView::RBracket,
        ensures
            final(self).wf(),
            final(self).tokens == old(self).tokens,
            r is Ok ==> final(self).pos >= old(self).pos,
            match r {
                Ok(items) => parse_items(old(self).stream(), old(self).pos as int, close@, Seq::empty())
                    == (ItemsStep::Items {
                    items: sexprs_view(items@),
                    next: final(self).pos as int,
                }),
                Err(m) => parse_items(old(self).stream(), old(self).pos as int, close@, Seq::empty())
                    == (ItemsStep::Fail { msg: m@ }),
            },
        decreases old(self).tokens.len() - old(self).pos, 1nat,
    {
        broadcast use group_sexpr_views;

        let mut items: Vec<SExpr> = Vec::new();
        let ghost toks = self.stream();
        let ghost goal = parse_items(toks, self.pos as int, close@, Seq::empty());
        while !self.check(close) && !self.at_eof()
            invariant
                self.wf(),
                self.tokens == old(self).tokens,
                self.pos >= old(self).pos,
                parse_items(toks, self.pos as int, close@, sexprs_view(items@)) == goal,
            decreases self.tokens.len() - self.pos,
        {
            match self.parse_sexpr() {
                Ok(e) => {
                    items.push(e);
                },
                Err(m) => {
                    return Err(m);
                },
            }
        }
        Ok(items)
    }

    /// Reads the closing delimiter `close` and builds the container that
    /// opened at `open_pos`.
    fn finish(&mut self, open_pos: usize, close: &TokenKind, kind: SExprKind) -> (r: Result<
        SExpr,
        String,
    >)
        requires
            old(self).wf(),
            open_pos < old(self).pos,
            close@ == TokenKindView::RParen || close@ == TokenKindView::RBracket || close@
                == TokenKindView::RBrace,
        ensures
            final(self).wf(),
            final(self).tokens == old(self).tokens,
            node_matches(
                r,
                close_node(old(self).stream(), open_pos as int, old(self).pos as int, close@, kind@),
                open_pos as int,
                final(self).pos as int,
            ),
    {
        let start = self.tokens[open_pos].span.start;
        if self.check(close) {
            let end = self.tokens[self.pos].span.end;
            self.pos = self.pos + 1;
            Ok(SExpr::new(kind, Span::new(start, end)))
        } else {
            let mut msg = String::from_str("expected ");
            msg.append(kind_label(close));
            msg.append(", got ");
            let at: usize = if self.pos < self.tokens.len() {
                msg.append(kind_label(&self.tokens[self.pos].kind));
                self.tokens[self.pos].span.start
            } else {
                msg.append("Eof");
                0
            };
            msg.append(" at byte ");
            push_usize(&mut msg, at);
            Err(msg)
        }
    }

    fn parse_list(&mut self) -> (r: Result<SExpr, String>)
        requires
            old(self).wf(),
            old(self).pos < old(self).tokens.len(),
            old(self).tokens@[old(self).pos as int].kind@ == TokenKindView::LParen,
        ensures
            final(self).wf(),
            final(self).tokens == old(self).tokens,
            node_matches(
                r,
                parse_expr(old(self).stream(), old(self).pos as int),
                old(self).pos as int,
                final(self).pos as int,
            ),
        decreases old(self).tokens.len() - old(self).pos - 1, 2nat,
    {
        let open_pos = self.pos;
        self.pos = self.pos + 1;
        match self.parse_children(&TokenKind::RParen) {
            Ok(items) => {
                self.finish(open_pos, &TokenKind::RParen, SExprKind::List(items))
            },
            Err(m) => Err(m),
        }
    }

    fn parse_vector(&mut self) -> (r: Result<SExpr, String>)
        requires
            old(self).wf(),
            old(self).pos < old(self).tokens.len(),
            old(self).tokens@[old(self).pos as int].kind@ == TokenKindView::LBracket,
        ensures
            final(self).wf(),
            final(self).tokens == old(self).tokens,
            node_matches(
                r,
                parse_expr(old(self).stream(), old(self).pos as int),
                old(self).pos as int,
                final(self).pos as int,
            ),
        decreases old(self).tokens.len() - old(self).pos - 1, 2nat,
    {
        let open_pos = self.pos;
        self.pos = self.pos + 1;
        match self.parse_children(&TokenKind::RBracket) {
            Ok(items) => {
                self.finish(open_pos, &TokenKind::RBracket, SExprKind::Vector(items))
            },
            Err(m) => Err(m),
        }
    }

    fn parse_map(&mut self) -> (r: Result<SExpr, String>)
        requires
            old(self).wf(),
            old(self).pos < old(self).tokens.len(),
            old(self).tokens@[old(self).pos as int].kind@ == TokenKindView::LBrace,
        ensures
            final(self).wf(),
            final(self).tokens == old(self).tokens,
            node_matches(
                r,
                parse_expr(old(self).stream(), old(self).pos as int),
                old(self).pos as int,
                final(self).pos as int,
            ),
        decreases old(self).tokens.len() - old(self).pos - 1, 2nat,
    {
        broadcast use group_sexpr_views;

        let open_pos = self.pos;
        self.pos = self.pos + 1;
        let mut entries: Vec<(SExpr, SExpr)> = Vec::new();
        let ghost toks = self.stream();
        let ghost goal = parse_entries(toks, self.pos as int, Seq::empty());
        while !self.check(&TokenKind::RBrace) && !self.at_eof()
            invariant
                self.wf(),
                self.tokens == old(self).tokens,
                self.pos > open_pos,
                parse_entries(toks, self.pos as int, entries_view(entries@)) == goal,
            decreases self.tokens.len() - self.pos,
        {
            let key = match self.parse_sexpr() {
                Ok(k) => k,
                Err(m) => {
                    return Err(m);
                },
            };
            if self.check(&TokenKind::Colon) {
                self.pos = self.pos + 1;
            }
            let value = match self.parse_sexpr() {
                Ok(v) => v,
                Err(m) => {
                    return Err(m);
                },
            };
            entries.push((key, value));
            if self.check(&TokenKind::Comma) {
                self.pos = self.pos + 1;
            }
        }
        self.finish(open_pos, &TokenKind::RBrace, SExprKind::Mapping(entries))
    }

    fn parse_atom(&mut self) -> (r: Result<SExpr, String>)
        requires
            old(self).wf(),
            old(self).pos < old(self).tokens.len(),
        ensures
            final(self).wf(),
            final(self).tokens == old(self).tokens,
            match r {
                Ok(e) => atom_of(old(self).stream()[old(self).pos as int].kind) == Some(
                    e@.kind->Atom_0,
                ) && e@.kind is Atom && e@.start == start_at(old(self).stream(), old(self).pos as int)
                    && e@.end == end_at(old(self).stream(), old(self).pos as int) && final(self).pos
                    == old(self).pos + 1,
                Err(m) => atom_of(old(self).stream()[old(self).pos as int].kind).is_none() && m@
                    == "unexpected token "@ + kind_name(old(self).stream()[old(self).pos as int].kind)
                    + " at byte "@ + dec(start_at(old(self).stream(), old(self).pos as int) as nat),
            },
    {
        let token = &self.tokens[self.pos];
        let span = Span::new(token.span.start, token.span.end);
        let kind = match &token.kind {
            TokenKind::Symbol(s) => AtomKind::Symbol(s.clone()),
            TokenKind::Keyword(s) => AtomKind::Keyword(s.clone()),
            TokenKind::StringLit(s) => AtomKind::StringLit(s.clone()),
            TokenKind::IntLit(n) => AtomKind::IntLit(*n),
            TokenKind::BoolLit(b) => AtomKind::BoolLit(*b),
            TokenKind::DurationLit(n, u) => AtomKind::DurationLit(*n, *u),
            TokenKind::RegexLit(s) => AtomKind::RegexLit(s.clone()),
            other => {
                let mut msg = String::from_str("unexpected token ");
                msg.append(kind_label(other));
                msg.append(" at byte ");
                push_usize(&mut msg, span.start);
                return Err(msg);
            },
        };
        self.pos = self.pos + 1;
        Ok(SExpr::new(SExprKind::Atom(kind), span))
    }

    /// Whether the next token is of the payload-free kind `kind`.
    fn check(&self, kind: &TokenKind) -> (r: bool)
        requires
            self.wf(),
            atom_of(kind@).is_none(),
        ensures
            r == (kind_at(self.stream(), self.pos as int) == kind@),
    {
        if self.pos >= self.tokens.len() {
            matches!(kind, TokenKind::Eof)
        } else {
            match (&self.tokens[self.pos].kind, kind) {
                (TokenKind::LParen, TokenKind::LParen) => true,
                (TokenKind::RParen, TokenKind::RParen) => true,
                (TokenKind::LBracket, TokenKind::LBracket) => true,
                (TokenKind::RBracket, TokenKind::RBracket) => true,
                (TokenKind::LBrace, TokenKind::LBrace) => true,
                (TokenKind::RBrace, TokenKind::RBrace) => true,
                (TokenKind::Colon, TokenKind::Colon) => true,
                (TokenKind::Comma, TokenKind::Comma) => true,
                (TokenKind::Eof, TokenKind::Eof) => true,
                _ => false,
            }
        }
    }

    fn at_eof(&self) -> (r: bool)
        requires
            self.wf(),
        ensures
            r == (kind_at(self.stream(), self.pos as int) == TokenKindView::Eof),
    {
        self.pos >= self.tokens.len() || matches!(self.tokens[self.pos].kind, TokenKind::Eof)
    }
}

} // verus!

//! Indentation-based reader for a small subset of YAML: mappings, block
//! sequences, plain and quoted scalars, comments. It knows no anchors,
//! tags, flow collections, multi-document streams or block scalars. A text
//! with a quoted scalar that is not closed, or with a line whose
//! indentation is badly nested, is refused with the line of the fault.

use vstd::prelude::*;
use vstd::string::{StringExecFns, StrSliceExecFns};
use crate::generate::yaml_ast::{YamlValue, YamlView, yamls_view, yaml_pairs_view};
use crate::strings::{contains, ends_with, find_from, find_sub, has_prefix, has_sub, has_suffix,
    is_whitespace, lead_ws, lemma_lead_ws_bounds, matches_at, rows_view, same_chars, slice_chars,
    split_lines, lines_of, starts_with, trim_chars, trim_range, trimmed, trimmed_range, whitespace};
use crate::text::{char_width, chars_of, left, owned, lemma_utf8_prefix_monotonic, string_from, string_of,
    utf8_prefix_len, utf8_width};

verus! {

broadcast use {crate::generate::yaml_ast::group_yaml_views};

/// Failure of the YAML reader, with the zero-based line it concerns.
#[derive(Debug)]
pub struct YamlParseError {
    pub line: usize,
    pub message: String,
}

/// Whether a line holds nothing but whitespace or a comment.
pub open spec fn blank_or_comment(line: Seq<char>) -> bool {
    trimmed(line).len() == 0 || trimmed(line)[0] == '#'
}

/// The first line from `pos` on that is neither blank nor a comment.
pub open spec fn skip_blank(lines: Seq<Seq<char>>, pos: int) -> int
    decreases left(lines.len(), pos),
{
    if 0 <= pos < lines.len() && blank_or_comment(lines[pos]) {
        skip_blank(lines, pos + 1)
    } else {
        pos
    }
}

pub proof fn lemma_skip_blank_bounds(lines: Seq<Seq<char>>, pos: int)
    requires
        0 <= pos <= lines.len(),
    ensures
        pos <= skip_blank(lines, pos) <= lines.len(),
    decreases left(lines.len(), pos),
{
    if pos < lines.len() && blank_or_comment(lines[pos]) {
        lemma_skip_blank_bounds(lines, pos + 1);
    }
}

/// The indentation of a line: the number of bytes of its leading whitespace.
pub open spec fn indent_of(line: Seq<char>) -> nat {
    utf8_prefix_len(line, lead_ws(line, 0, line.len() as int))
}

/// Whether a trimmed line opens a sequence item.
pub open spec fn is_item(t: Seq<char>) -> bool {
    starts_with(t, "- "@) || t == "-"@
}

/// Whether a text holds a key: `key: value`, or `key:` at its end.
pub open spec fn is_entry(t: Seq<char>) -> bool {
    contains(t, ": "@) || ends_with(t, ":"@)
}

/// The key and the rest of `key: value` or `key:`, split at the first `: `.
pub open spec fn split_kv(t: Seq<char>) -> Option<(Seq<char>, Seq<char>)> {
    match find_from(t, ": "@, 0) {
        Some(idx) => Some(
            (trimmed(t.subrange(0, idx)), trimmed(t.subrange(idx + 2, t.len() as int))),
        ),
        None => if ends_with(t, ":"@) {
            Some((trimmed(t.subrange(0, t.len() - 1)), Seq::empty()))
        } else {
            None
        },
    }
}

/// The text of a scalar: trimmed, and without its quotes where it is quoted.
pub open spec fn scalar_text(s: Seq<char>) -> Seq<char> {
    let t = trimmed(s);
    if t.len() >= 2 && t[0] == '"' && t[t.len() - 1] == '"' {
        t.subrange(1, t.len() - 1)
    } else {
        t
    }
}

/// `q`, or `floor` where `q` lies before it. The reader never moves back
/// (`lemma_value_at_advances` and its companions), so wherever this function
/// is applied below the result is `q`; it is there to make the recursion
/// evidently well-founded.
pub open spec fn at_least(q: int, floor: int) -> int {
    if q >= floor {
        q
    } else {
        floor
    }
}

/// The value that starts at the first significant line from `pos` on, read
/// at the indentation `indent`, and the position after it.
pub open spec fn value_at(lines: Seq<Seq<char>>, pos: int, indent: nat) -> (YamlView, int)
    decreases left(lines.len(), pos), 3nat,
{
    let p = skip_blank(lines, pos);
    if 0 <= pos && 0 <= p < lines.len() {
        let t = trimmed(lines[p]);
        if is_item(t) {
            proof {
                lemma_skip_blank_bounds(lines, pos);
            }
            let r = sequence_from(lines, p, indent, Seq::empty());
            (YamlView::Sequence(r.0), r.1)
        } else if is_entry(t) {
            proof {
                lemma_skip_blank_bounds(lines, pos);
            }
            let r = mapping_from(lines, p, indent, Seq::empty());
            (YamlView::Mapping(r.0), r.1)
        } else {
            (YamlView::Scalar(scalar_text(t)), p + 1)
        }
    } else {
        (YamlView::Scalar(Seq::empty()), p)
    }
}

/// The value on the lines that follow a key or a dash: the value at the
/// next significant line where that line is indented deeper than `indent`,
/// else the empty scalar.
pub open spec fn child_value(lines: Seq<Seq<char>>, pos: int, indent: nat) -> (YamlView, int)
    decreases left(lines.len(), pos), 4nat,
{
    let p = skip_blank(lines, pos);
    if 0 <= pos && 0 <= p < lines.len() && indent_of(lines[p]) > indent {
        proof {
            lemma_skip_blank_bounds(lines, pos);
        }
        value_at(lines, p, indent_of(lines[p]))
    } else {
        (YamlView::Scalar(Seq::empty()), p)
    }
}

/// The value of a key whose text after the colon is `rest`; `next` is the
/// line after the key's line.
pub open spec fn entry_value(lines: Seq<Seq<char>>, next: int, indent: nat, rest: Seq<char>) -> (
    YamlView,
    int,
)
    decreases left(lines.len(), next), 5nat,
{
    if rest.len() == 0 {
        child_value(lines, next, indent)
    } else {
        (YamlView::Scalar(scalar_text(rest)), next)
    }
}

/// The pairs of a mapping whose keys stand at the indentation `indent`,
/// from `pos` on, appended to `acc`.
pub open spec fn mapping_from(
    lines: Seq<Seq<char>>,
    pos: int,
    indent: nat,
    acc: Seq<(Seq<char>, YamlView)>,
) -> (Seq<(Seq<char>, YamlView)>, int)
    decreases left(lines.len(), pos), 1nat,
{
    let p = skip_blank(lines, pos);
    if 0 <= pos && 0 <= p < lines.len() && indent_of(lines[p]) == indent {
        match split_kv(trimmed(lines[p])) {
            None => (acc, p),
            Some((key, rest)) => {
                proof {
                    lemma_skip_blank_bounds(lines, pos);
                }
                let r = entry_value(lines, p + 1, indent, rest);
                mapping_from(lines, at_least(r.1, p + 1), indent, acc.push((key, r.0)))
            },
        }
    } else {
        (acc, p)
    }
}

/// The item that the pairs of an inline mapping stand for: a lone key
/// without a value is the scalar `text`.
pub open spec fn inline_item(pairs: Seq<(Seq<char>, YamlView)>, text: Seq<char>) -> YamlView {
    if pairs.len() == 1 && pairs[0].1 == YamlView::Scalar(Seq::empty()) {
        YamlView::Scalar(text)
    } else {
        YamlView::Mapping(pairs)
    }
}

/// The items of a sequence whose dashes stand at the indentation `indent`,
/// from `pos` on, appended to `acc`.
pub open spec fn sequence_from(lines: Seq<Seq<char>>, pos: int, indent: nat, acc: Seq<YamlView>) -> (
    Seq<YamlView>,
    int,
)
    decreases left(lines.len(), pos), 1nat,
{
    let p = skip_blank(lines, pos);
    if 0 <= pos && 0 <= p < lines.len() && indent_of(lines[p]) == indent && is_item(
        trimmed(lines[p]),
    ) {
        let t = trimmed(lines[p]);
        let after = if t == "-"@ {
            Seq::<char>::empty()
        } else {
            t.subrange(2, t.len() as int)
        };
        proof {
            lemma_skip_blank_bounds(lines, pos);
        }
        if after.len() == 0 {
            let r = child_value(lines, p + 1, indent);
            sequence_from(lines, at_least(r.1, p + 1), indent, acc.push(r.0))
        } else if is_entry(after) {
            let first = match split_kv(after) {
                Some((key, rest)) => {
                    let r = entry_value(lines, p + 1, indent, rest);
                    (seq![(key, r.0)], at_least(r.1, p + 1))
                },
                None => (Seq::<(Seq<char>, YamlView)>::empty(), p + 1),
            };
            let r = mapping_from(lines, first.1, indent + 2, first.0);
            sequence_from(
                lines,
                at_least(r.1, p + 1),
                indent,
                acc.push(inline_item(r.0, after)),
            )
        } else {
            sequence_from(lines, p + 1, indent, acc.push(YamlView::Scalar(scalar_text(after))))
        }
    } else {
        (acc, p)
    }
}

/// The reader never moves back: the position after a value is not before
/// the position at which reading began.
pub proof fn lemma_value_at_advances(lines: Seq<Seq<char>>, pos: int, indent: nat)
    requires
        0 <= pos <= lines.len(),
    ensures
        pos <= value_at(lines, pos, indent).1 <= lines.len(),
    decreases left(lines.len(), pos), 3nat,
{
    lemma_skip_blank_bounds(lines, pos);
    let p = skip_blank(lines, pos);
    if p < lines.len() {
        let t = trimmed(lines[p]);
        if is_item(t) {
            lemma_sequence_from_advances(lines, p, indent, Seq::empty());
        } else if is_entry(t) {
            lemma_mapping_from_advances(lines, p, indent, Seq::empty());
        }
    }
}

pub proof fn lemma_child_value_advances(lines: Seq<Seq<char>>, pos: int, indent: nat)
    requires
        0 <= pos <= lines.len(),
    ensures
        pos <= child_value(lines, pos, indent).1 <= lines.len(),
    decreases left(lines.len(), pos), 4nat,
{
    lemma_skip_blank_bounds(lines, pos);
    let p = skip_blank(lines, pos);
    if p < lines.len() && indent_of(lines[p]) > indent {
        lemma_value_at_advances(lines, p, indent_of(lines[p]));
    }
}

pub proof fn lemma_entry_value_advances(
    lines: Seq<Seq<char>>,
    next: int,
    indent: nat,
    rest: Seq<char>,
)
    requires
        0 <= next <= lines.len(),
    ensures
        next <= entry_value(lines, next, indent, rest).1 <= lines.len(),
    decreases left(lines.len(), next), 5nat,
{
    if rest.len() == 0 {
        lemma_child_value_advances(lines, next, indent);
    }
}

pub proof fn lemma_mapping_from_advances(
    lines: Seq<Seq<char>>,
    pos: int,
    indent: nat,
    acc: Seq<(Seq<char>, YamlView)>,
)
    requires
        0 <= pos <= lines.len(),
    ensures
        pos <= mapping_from(lines, pos, indent, acc).1 <= lines.len(),
    decreases left(lines.len(), pos), 1nat,
{
    lemma_skip_blank_bounds(lines, pos);
    let p = skip_blank(lines, pos);
    if p < lines.len() && indent_of(lines[p]) == indent {
        if let Some((key, rest)) = split_kv(trimmed(lines[p])) {
            lemma_entry_value_advances(lines, p + 1, indent, rest);
            let r = entry_value(lines, p + 1, indent, rest);
            lemma_mapping_from_advances(lines, at_least(r.1, p + 1), indent, acc.push((key, r.0)));
        }
    }
}

pub proof fn lemma_sequence_from_advances(
    lines: Seq<Seq<char>>,
    pos: int,
    indent: nat,
    acc: Seq<YamlView>,
)
    requires
        0 <= pos <= lines.len(),
    ensures
        pos <= sequence_from(lines, pos, indent, acc).1 <= lines.len(),
    decreases left(lines.len(), pos), 1nat,
{
    lemma_skip_blank_bounds(lines, pos);
    let p = skip_blank(lines, pos);
    if p < lines.len() && indent_of(lines[p]) == indent && is_item(trimmed(lines[p])) {
        let t = trimmed(lines[p]);
        let after = if t == "-"@ {
            Seq::<char>::empty()
        } else {
            t.subrange(2, t.len() as int)
        };
        if after.len() == 0 {
            lemma_child_value_advances(lines, p + 1, indent);
            let r = child_value(lines, p + 1, indent);
            lemma_sequence_from_advances(lines, at_least(r.1, p + 1), indent, acc.push(r.0));
        } else if is_entry(after) {
            let first = match split_kv(after) {
                Some((key, rest)) => {
                    lemma_entry_value_advances(lines, p + 1, indent, rest);
                    let r = entry_value(lines, p + 1, indent, rest);
                    (seq![(key, r.0)], at_least(r.1, p + 1))
                },
                None => (Seq::<(Seq<char>, YamlView)>::empty(), p + 1),
            };
            lemma_mapping_from_advances(lines, first.1, indent + 2, first.0);
            let r = mapping_from(lines, first.1, indent + 2, first.0);
            lemma_sequence_from_advances(
                lines,
                at_least(r.1, p + 1),
                indent,
                acc.push(inline_item(r.0, after)),
            );
        } else {
            lemma_sequence_from_advances(
                lines,
                p + 1,
                indent,
                acc.push(YamlView::Scalar(scalar_text(after))),
            );
        }
    }
}

/// The value of a whole document from `pos` on: an empty mapping where no
/// significant line is left.
pub open spec fn document(lines: Seq<Seq<char>>, pos: int) -> YamlView {
    let p = skip_blank(lines, pos);
    if 0 <= p < lines.len() {
        value_at(lines, p, indent_of(lines[p])).0
    } else {
        YamlView::Mapping(Seq::empty())
    }
}

/// The value of the document that the text `input` holds.
pub open spec fn parse_yaml(input: Seq<char>) -> YamlView {
    document(lines_of(input), 0)
}

// ---------------------------------------------------------------------------
// Faults
// ---------------------------------------------------------------------------

/// The text behind the dash of a sequence item.
pub open spec fn item_text(t: Seq<char>) -> Seq<char> {
    if t == "-"@ {
        Seq::<char>::empty()
    } else {
        t.subrange(2, t.len() as int)
    }
}

/// The text behind the colon of `key: value`, empty for `key:`.
pub open spec fn entry_rest(t: Seq<char>) -> Seq<char> {
    match split_kv(t) {
        Some((_, rest)) => rest,
        None => Seq::empty(),
    }
}

/// The scalar that a trimmed line writes, empty where it writes none: the
/// value of its key, the text of its item, or the line itself.
pub open spec fn line_scalar(t: Seq<char>) -> Seq<char> {
    if is_item(t) {
        if is_entry(item_text(t)) {
            entry_rest(item_text(t))
        } else {
            item_text(t)
        }
    } else if is_entry(t) {
        entry_rest(t)
    } else {
        t
    }
}

/// Whether a scalar opens with a double quote and does not close with one.
pub open spec fn unclosed(s: Seq<char>) -> bool {
    let t = trimmed(s);
    t.len() > 0 && t[0] == '"' && !(t.len() >= 2 && t[t.len() - 1] == '"')
}

/// Whether a trimmed line opens a block: a key or a dash with nothing
/// behind it, under which deeper lines may stand.
pub open spec fn opens_block(t: Seq<char>) -> bool {
    (is_item(t) || is_entry(t)) && line_scalar(t).len() == 0
}

/// Whether a trimmed line is an item that starts a mapping, whose further
/// keys stand two columns deeper than its dash.
pub open spec fn starts_inline(t: Seq<char>) -> bool {
    is_item(t) && is_entry(item_text(t))
}

/// The open levels of indentation that are not deeper than `d`.
pub open spec fn popped(stack: Seq<nat>, d: nat) -> Seq<nat>
    decreases stack.len(),
{
    if stack.len() > 0 && stack[stack.len() - 1] > d {
        popped(stack.subrange(0, stack.len() - 1), d)
    } else {
        stack
    }
}

/// Whether a line of indentation `d` can be placed: as the first line,
/// deeper than the line before it where that line opens a block, or at a
/// level that is open.
pub open spec fn placed(stack: Seq<nat>, opens: bool, d: nat) -> bool {
    if stack.len() == 0 {
        true
    } else if d > stack[stack.len() - 1] {
        opens
    } else {
        popped(stack, d).len() > 0 && popped(stack, d)[popped(stack, d).len() - 1] == d
    }
}

/// The open levels behind a line of indentation `d` with the trimmed text `t`.
pub open spec fn levels_after(stack: Seq<nat>, d: nat, t: Seq<char>) -> Seq<nat> {
    let kept = popped(stack, d);
    let base = if kept.len() > 0 && kept[kept.len() - 1] == d {
        kept
    } else {
        kept.push(d)
    };
    if starts_inline(t) {
        base.push(d + 2)
    } else {
        base
    }
}

/// The first fault from the line `i` on, with its line: a line whose
/// indentation is badly nested, or a quoted scalar that is not closed.
/// `stack` holds the open levels of indentation and `opens` tells whether
/// the line before opens a block.
pub open spec fn fault_from(lines: Seq<Seq<char>>, i: int, stack: Seq<nat>, opens: bool) -> Option<
    (int, Seq<char>),
>
    decreases left(lines.len(), i),
{
    if 0 <= i < lines.len() {
        if blank_or_comment(lines[i]) {
            fault_from(lines, i + 1, stack, opens)
        } else {
            let t = trimmed(lines[i]);
            let d = indent_of(lines[i]);
            if !placed(stack, opens, d) {
                Some((i, "badly nested indentation"@))
            } else if unclosed(line_scalar(t)) {
                Some((i, "unterminated quoted string"@))
            } else {
                fault_from(lines, i + 1, levels_after(stack, d, t), opens_block(t))
            }
        }
    } else {
        None
    }
}

/// The first fault of the lines from `pos` on, if there is one.
pub open spec fn yaml_fault(lines: Seq<Seq<char>>, pos: int) -> Option<(int, Seq<char>)> {
    fault_from(lines, pos, Seq::empty(), false)
}

/// What reading a text yields: the value of its document, or its first
/// fault with the zero-based line of the fault.
pub open spec fn read_yaml(input: Seq<char>) -> Result<YamlView, (int, Seq<char>)> {
    match yaml_fault(lines_of(input), 0) {
        Some(f) => Err(f),
        None => Ok(parse_yaml(input)),
    }
}

/// The levels of indentation that a vector holds.
pub open spec fn levels(v: Seq<u128>) -> Seq<nat> {
    Seq::new(v.len(), |i: int| v[i] as nat)
}


/// Reader state: the lines of the input and the line to read next.
pub struct YamlParser {
    lines: Vec<Vec<char>>,
    pos: usize,
}

fn is_item_text(t: &Vec<char>) -> (r: bool)
    ensures
        r == is_item(t@),
{
    let dash_space = chars_of("- ");
    let dash = chars_of("-");
    has_prefix(t, &dash_space) || same_chars(t, &dash)
}

fn is_entry_text(t: &Vec<char>) -> (r: bool)
    ensures
        r == is_entry(t@),
{
    let colon_space = chars_of(": ");
    let colon = chars_of(":");
    has_sub(t, &colon_space) || has_suffix(t, &colon)
}

/// The text of a scalar: trimmed, and without its quotes where it is quoted.
fn parse_scalar_value(s: &Vec<char>) -> (r: YamlValue)
    ensures
        r@ == YamlView::Scalar(scalar_text(s@)),
{
    let (a, b) = trim_range(s, 0, s.len());
    if b - a >= 2 && s[a] == '"' && s[b - 1] == '"' {
        assert(trimmed(s@).subrange(1, trimmed(s@).len() - 1) =~= s@.subrange(a + 1, b - 1));
        YamlValue::Scalar(string_from(s, a + 1, b - 1))
    } else {
        YamlValue::Scalar(string_from(s, a, b))
    }
}

/// The key and the rest of `key: value` or `key:`.
fn split_key_value(t: &Vec<char>) -> (r: Option<(String, Vec<char>)>)
    ensures
        match r {
            Some((key, rest)) => split_kv(t@) == Some((key@, rest@)),
            None => split_kv(t@).is_none(),
        },
{
    let colon_space = chars_of(": ");
    let colon = chars_of(":");
    proof {
        reveal_strlit(": ");
        reveal_strlit(":");
    }
    match find_sub(t, &colon_space, 0) {
        Some(idx) => {
            let head = slice_chars(t, 0, idx);
            let tail = slice_chars(t, idx + 2, t.len());
            let key = trim_chars(&head);
            let rest = trim_chars(&tail);
            Some((string_of(&key), rest))
        },
        None => {
            if has_suffix(t, &colon) {
                let head = slice_chars(t, 0, t.len() - 1);
                let key = trim_chars(&head);
                Some((string_of(&key), Vec::new()))
            } else {
                None
            }
        },
    }
}

/// The text after the dash of a sequence item.
fn after_dash(t: &Vec<char>) -> (r: Vec<char>)
    requires
        is_item(t@),
    ensures
        r@ == if t@ == "-"@ {
            Seq::<char>::empty()
        } else {
            t@.subrange(2, t@.len() as int)
        },
{
    let dash = chars_of("-");
    proof {
        reveal_strlit("- ");
        reveal_strlit("-");
    }
    if same_chars(t, &dash) {
        Vec::new()
    } else {
        slice_chars(t, 2, t.len())
    }
}

/// The indentation of a line, in bytes.
fn line_indent(line: &Vec<char>) -> (r: u128)
    ensures
        r == indent_of(line@),
        r <= 0xFFFF_FFFF_FFFF_FFFF_FFFF,
{
    let mut sum: u128 = 0;
    let mut i: usize = 0;
    while i < line.len() && is_whitespace(line[i])
        invariant
            i <= line.len(),
            sum == utf8_prefix_len(line@, i as int),
            sum <= 4 * i,
            lead_ws(line@, i as int, line@.len() as int) == lead_ws(line@, 0, line@.len() as int),
        decreases line.len() - i,
    {
        sum = sum + char_width(line[i]) as u128;
        i += 1;
    }
    sum
}

/// The text behind the colon of `key: value`.
fn rest_of_entry(t: &Vec<char>) -> (r: Vec<char>)
    ensures
        r@ == entry_rest(t@),
{
    match split_key_value(t) {
        Some((_, rest)) => rest,
        None => Vec::new(),
    }
}

/// The scalar that a trimmed line writes.
fn scalar_on_line(t: &Vec<char>) -> (r: Vec<char>)
    ensures
        r@ == line_scalar(t@),
{
    if is_item_text(t) {
        let after = after_dash(t);
        if is_entry_text(&after) {
            rest_of_entry(&after)
        } else {
            after
        }
    } else if is_entry_text(t) {
        rest_of_entry(t)
    } else {
        slice_all(t)
    }
}

fn slice_all(t: &Vec<char>) -> (r: Vec<char>)
    ensures
        r@ == t@,
{
    let r = slice_chars(t, 0, t.len());
    assert(t@.subrange(0, t@.len() as int) =~= t@);
    r
}

/// Whether a scalar opens with a double quote and does not close with one.
fn is_unclosed(s: &Vec<char>) -> (r: bool)
    ensures
        r == unclosed(s@),
{
    let (a, b) = trim_range(s, 0, s.len());
    b > a && s[a] == '"' && !(b - a >= 2 && s[b - 1] == '"')
}

/// Whether a trimmed line is an item that starts a mapping.
fn is_inline_start(t: &Vec<char>) -> (r: bool)
    ensures
        r == starts_inline(t@),
{
    if is_item_text(t) {
        let after = after_dash(t);
        is_entry_text(&after)
    } else {
        false
    }
}

/// Whether a trimmed line with the scalar `scalar` opens a block.
fn is_block_opener(t: &Vec<char>, scalar: &Vec<char>) -> (r: bool)
    requires
        scalar@ == line_scalar(t@),
    ensures
        r == opens_block(t@),
{
    (is_item_text(t) || is_entry_text(t)) && scalar.len() == 0
}

/// Drops the open levels that are deeper than `d`.
fn pop_levels(stack: &mut Vec<u128>, d: u128)
    ensures
        levels(final(stack)@) == popped(levels(old(stack)@), d as nat),
{
    let ghost start = levels(stack@);
    while stack.len() > 0 && stack[stack.len() - 1] > d
        invariant
            popped(levels(stack@), d as nat) == popped(start, d as nat),
        decreases stack.len(),
    {
        let ghost before = levels(stack@);
        stack.pop();
        assert(levels(stack@) =~= before.subrange(0, before.len() - 1));
    }
}

impl YamlParser {
    /// The lines of the input.
    pub closed spec fn lines(&self) -> Seq<Seq<char>> {
        rows_view(self.lines@)
    }

    /// Index of the line to read next.
    pub closed spec fn position(&self) -> int {
        self.pos as int
    }

    /// The position lies inside the input or at its end.
    pub closed spec fn wf(&self) -> bool {
        self.pos <= self.lines.len()
    }

    pub fn new(input: &str) -> (p: YamlParser)
        ensures
            p.wf(),
            p.lines() == lines_of(input@),
            p.position() == 0,
    {
        let chars = chars_of(input);
        YamlParser { lines: split_lines(&chars), pos: 0 }
    }

    /// The first fault of the lines from the current one on.
    fn find_fault(&self) -> (r: Option<YamlParseError>)
        requires
            self.wf(),
        ensures
            match r {
                Some(e) => yaml_fault(self.lines(), self.position()) == Some(
                    (e.line as int, e.message@),
                ),
                None => yaml_fault(self.lines(), self.position()).is_none(),
            },
    {
        let mut stack: Vec<u128> = Vec::new();
        let mut opens = false;
        let mut i: usize = self.pos;
        assert(levels(stack@) =~= Seq::<nat>::empty());
        while i < self.lines.len()
            invariant
                self.pos <= i <= self.lines.len(),
                fault_from(self.lines(), i as int, levels(stack@), opens) == yaml_fault(
                    self.lines(),
                    self.position(),
                ),
            decreases self.lines.len() - i,
        {
            let line = &self.lines[i];
            let (a, b) = trim_range(line, 0, line.len());
            if !(a == b || line[a] == '#') {
                let t = slice_chars(line, a, b);
                let d = line_indent(line);
                let ghost before = levels(stack@);
                let top = if stack.len() > 0 {
                    Some(stack[stack.len() - 1])
                } else {
                    None
                };
                pop_levels(&mut stack, d);
                let fits = match top {
                    None => true,
                    Some(last) => if d > last {
                        opens
                    } else {
                        stack.len() > 0 && stack[stack.len() - 1] == d
                    },
                };
                assert(fits == placed(before, opens, d as nat));
                if !fits {
                    return Some(
                        YamlParseError { line: i, message: owned("badly nested indentation") },
                    );
                }
                let scalar = scalar_on_line(&t);
                if is_unclosed(&scalar) {
                    return Some(
                        YamlParseError { line: i, message: owned("unterminated quoted string") },
                    );
                }
                if !(stack.len() > 0 && stack[stack.len() - 1] == d) {
                    let ghost kept = levels(stack@);
                    stack.push(d);
                    assert(levels(stack@) =~= kept.push(d as nat));
                }
                if is_inline_start(&t) {
                    let ghost base = levels(stack@);
                    stack.push(d + 2);
                    assert(levels(stack@) =~= base.push((d + 2) as nat));
                }
                assert(levels(stack@) == levels_after(before, d as nat, t@));
                opens = is_block_opener(&t, &scalar);
            }
            i += 1;
        }
        None
    }

    /// Reads the document from the current line on: its value, or the
    /// first fault with its line. A fault is a line whose indentation is
    /// badly nested or a quoted scalar that is not closed.
    pub fn parse(&mut self) -> (r: Result<YamlValue, YamlParseError>)
        requires
            old(self).wf(),
        ensures
            final(self).wf(),
            final(self).lines() == old(self).lines(),
            match r {
                Ok(v) => yaml_fault(old(self).lines(), old(self).position()).is_none() && v@
                    == document(old(self).lines(), old(self).position()),
                Err(e) => yaml_fault(old(self).lines(), old(self).position()) == Some(
                    (e.line as int, e.message@),
                ),
            },
    {
        if let Some(e) = self.find_fault() {
            return Err(e);
        }
        self.skip_blank_and_comments();
        if self.pos >= self.lines.len() {
            return Ok(YamlValue::Mapping(Vec::new()));
        }
        let indent = self.current_indent();
        proof {
            assert(skip_blank(self.lines(), self.pos as int) == self.pos);
        }
        Ok(self.parse_value_at_indent(indent))
    }

    fn skip_blank_and_comments(&mut self)
        requires
            old(self).wf(),
        ensures
            final(self).wf(),
            final(self).lines == old(self).lines,
            final(self).pos == skip_blank(old(self).lines(), old(self).pos as int),
            final(self).pos >= old(self).pos,
            skip_blank(final(self).lines(), final(self).pos as int) == final(self).pos,
    {
        let mut done = false;
        while !done && self.pos < self.lines.len()
            invariant
                self.wf(),
                self.lines == old(self).lines,
                self.pos >= old(self).pos,
                skip_blank(self.lines(), self.pos as int) == skip_blank(
                    old(self).lines(),
                    old(self).pos as int,
                ),
                done ==> skip_blank(self.lines(), self.pos as int) == self.pos,
            decreases self.lines.len() - self.pos + if done { 0int } else { 1int },
        {
            let line = &self.lines[self.pos];
            let (a, b) = trim_range(line, 0, line.len());
            if a == b || line[a] == '#' {
                self.pos += 1;
            } else {
                done = true;
            }
        }
    }

    /// The indentation of the current line, in bytes.
    fn current_indent(&self) -> (r: u128)
        requires
            self.wf(),
            self.pos < self.lines.len(),
        ensures
            r == indent_of(self.lines()[self.pos as int]),
            r <= 0xFFFF_FFFF_FFFF_FFFF_FFFF,
    {
        line_indent(&self.lines[self.pos])
    }

    fn current_line_trimmed(&self) -> (r: Vec<char>)
        requires
            self.wf(),
            self.pos < self.lines.len(),
        ensures
            r@ == trimmed(self.lines()[self.pos as int]),
    {
        trim_chars(&self.lines[self.pos])
    }

    fn parse_value_at_indent(&mut self, indent: u128) -> (r: YamlValue)
        requires
            old(self).wf(),
            indent <= 0xFFFF_FFFF_FFFF_FFFF_FFFF,
        ensures
            final(self).wf(),
            final(self).lines == old(self).lines,
            final(self).pos >= old(self).pos,
            (r@, final(self).pos as int) == value_at(
                old(self).lines(),
                old(self).pos as int,
                indent as nat,
            ),
        decreases old(self).lines.len() - old(self).pos, 3nat,
    {
        self.skip_blank_and_comments();
        if self.pos >= self.lines.len() {
            return YamlValue::Scalar(String::new());
        }
        let line = self.current_line_trimmed();
        if is_item_text(&line) {
            YamlValue::Sequence(self.parse_sequence(indent))
        } else if is_entry_text(&line) {
            YamlValue::Mapping(self.parse_mapping(indent, Vec::new()))
        } else {
            let val = parse_scalar_value(&line);
            assert(scalar_text(trimmed(self.lines()[self.pos as int])) == scalar_text(line@));
            self.pos += 1;
            val
        }
    }

    /// The value on the lines that follow a key or a dash.
    fn parse_child(&mut self, indent: u128) -> (r: YamlValue)
        requires
            old(self).wf(),
        ensures
            final(self).wf(),
            final(self).lines == old(self).lines,
            final(self).pos >= old(self).pos,
            (r@, final(self).pos as int) == child_value(
                old(self).lines(),
                old(self).pos as int,
                indent as nat,
            ),
        decreases old(self).lines.len() - old(self).pos, 4nat,
    {
        self.skip_blank_and_comments();
        if self.pos < self.lines.len() {
            let child_indent = self.current_indent();
            if child_indent > indent {
                return self.parse_value_at_indent(child_indent);
            }
        }
        YamlValue::Scalar(String::new())
    }

    /// The value of a key whose text after the colon is `rest`.
    fn parse_entry_value(&mut self, indent: u128, rest: &Vec<char>) -> (r: YamlValue)
        requires
            old(self).wf(),
        ensures
            final(self).wf(),
            final(self).lines == old(self).lines,
            final(self).pos >= old(self).pos,
            (r@, final(self).pos as int) == entry_value(
                old(self).lines(),
                old(self).pos as int,
                indent as nat,
                rest@,
            ),
        decreases old(self).lines.len() - old(self).pos, 5nat,
    {
        if rest.len() == 0 {
            self.parse_child(indent)
        } else {
            parse_scalar_value(rest)
        }
    }

    /// Reads the pairs whose keys stand at `indent` and appends them to `pairs`.
    fn parse_mapping(&mut self, indent: u128, pairs: Vec<(String, YamlValue)>) -> (r: Vec<
        (String, YamlValue),
    >)
        requires
            old(self).wf(),
        ensures
            final(self).wf(),
            final(self).lines == old(self).lines,
            final(self).pos >= old(self).pos,
            (yaml_pairs_view(r@), final(self).pos as int) == mapping_from(
                old(self).lines(),
                old(self).pos as int,
                indent as nat,
                yaml_pairs_view(pairs@),
            ),
        decreases old(self).lines.len() - old(self).pos, 1nat,
    {
        let mut pairs = pairs;
        let ghost lines = self.lines();
        let ghost goal = mapping_from(lines, self.pos as int, indent as nat, yaml_pairs_view(pairs@));
        loop
            invariant
                self.wf(),
                self.lines == old(self).lines,
                self.pos >= old(self).pos,
                mapping_from(lines, self.pos as int, indent as nat, yaml_pairs_view(pairs@))
                    == goal,
            decreases self.lines.len() - self.pos,
        {
            self.skip_blank_and_comments();
            if self.pos >= self.lines.len() {
                return pairs;
            }
            if self.current_indent() != indent {
                return pairs;
            }
            let line = self.current_line_trimmed();
            match split_key_value(&line) {
                Some((key, rest)) => {
                    self.pos += 1;
                    let value = self.parse_entry_value(indent, &rest);
                    pairs.push((key, value));
                },
                None => {
                    return pairs;
                },
            }
        }
    }

    /// Reads the items whose dashes stand at `indent`.
    fn parse_sequence(&mut self, indent: u128) -> (r: Vec<YamlValue>)
        requires
            old(self).wf(),
            indent <= 0xFFFF_FFFF_FFFF_FFFF_FFFF,
        ensures
            final(self).wf(),
            final(self).lines == old(self).lines,
            final(self).pos >= old(self).pos,
            (yamls_view(r@), final(self).pos as int) == sequence_from(
                old(self).lines(),
                old(self).pos as int,
                indent as nat,
                Seq::empty(),
            ),
        decreases old(self).lines.len() - old(self).pos, 1nat,
    {
        let mut items: Vec<YamlValue> = Vec::new();
        let ghost lines = self.lines();
        let ghost goal = sequence_from(lines, self.pos as int, indent as nat, Seq::empty());
        loop
            invariant
                self.wf(),
                self.lines == old(self).lines,
                self.pos >= old(self).pos,
                sequence_from(lines, self.pos as int, indent as nat, yamls_view(items@)) == goal,
            decreases self.lines.len() - self.pos,
        {
            self.skip_blank_and_comments();
            if self.pos >= self.lines.len() {
                return items;
            }
            if self.current_indent() != indent {
                return items;
            }
            let line = self.current_line_trimmed();
            if !is_item_text(&line) {
                return items;
            }
            let after = after_dash(&line);
            self.pos += 1;
            if after.len() == 0 {
                items.push(self.parse_child(indent));
            } else if is_entry_text(&after) {
                let mut first: Vec<(String, YamlValue)> = Vec::new();
                if let Some((key, rest)) = split_key_value(&after) {
                    let value = self.parse_entry_value(indent, &rest);
                    first.push((key, value));
                    assert(yaml_pairs_view(first@) =~= seq![(key@, value@)]);
                }
                let pairs = self.parse_mapping(indent + 2, first);
                let lone = pairs.len() == 1 && match &pairs[0].1 {
                    YamlValue::Scalar(s) => s.as_str().unicode_len() == 0,
                    _ => false,
                };
                if lone {
                    assert(yaml_pairs_view(pairs@)[0].1 == YamlView::Scalar(Seq::<char>::empty())) by {
                        assert(pairs@[0].1@->Scalar_0 =~= Seq::<char>::empty());
                    }
                    items.push(YamlValue::Scalar(string_of(&after)));
                } else {
                    items.push(YamlValue::Mapping(pairs));
                }
            } else {
                items.push(parse_scalar_value(&after));
            }
        }
    }
}

} // verus!

//! Uniform error and warning records.

use vstd::prelude::*;
use vstd::string::StringExecFns;
use crate::lexer::Span;
use crate::strings::{lines_of, rows_view, split_lines};
use crate::text::{char_width, chars_of, dec, left, push_chars, push_spaces, push_u128, spaces,
    utf8_prefix_len, utf8_width};

verus! {

#[derive(Debug, Clone, Copy, PartialEq, Eq)]
pub enum DiagnosticKind {
    Error,
    Warning,
}

/// A message about the source, with the bytes it is about where known.
#[derive(Debug, Clone)]
pub struct Diagnostic {
    pub kind: DiagnosticKind,
    pub message: String,
    pub span: Option<Span>,
}

pub ghost struct DiagnosticView {
    pub kind: DiagnosticKind,
    pub message: Seq<char>,
    pub span: Option<Span>,
}

impl View for Diagnostic {
    type V = DiagnosticView;

    open spec fn view(&self) -> DiagnosticView {
        DiagnosticView { kind: self.kind, message: self.message@, span: self.span }
    }
}

/// The views of a sequence of diagnostics.
pub open spec fn diags_view(s: Seq<Diagnostic>) -> Seq<DiagnosticView> {
    Seq::new(s.len(), |i: int| s[i]@)
}

pub broadcast proof fn lemma_diags_view_push(s: Seq<Diagnostic>, d: Diagnostic)
    ensures
        #[trigger] diags_view(s.push(d)) == diags_view(s).push(d@),
{
    assert(diags_view(s.push(d)) =~= diags_view(s).push(d@));
}

/// An error record as a value of the model.
pub open spec fn error_view(message: Seq<char>, span: Option<Span>) -> DiagnosticView {
    DiagnosticView { kind: DiagnosticKind::Error, message, span }
}

/// A warning record as a value of the model.
pub open spec fn warning_view(message: Seq<char>, span: Option<Span>) -> DiagnosticView {
    DiagnosticView { kind: DiagnosticKind::Warning, message, span }
}

impl Diagnostic {
    pub fn error(message: String, span: Option<Span>) -> (d: Diagnostic)
        ensures
            d@ == error_view(message@, span),
    {
        Diagnostic { kind: DiagnosticKind::Error, message, span }
    }

    pub fn warning(message: String, span: Option<Span>) -> (d: Diagnostic)
        ensures
            d@ == warning_view(message@, span),
    {
        Diagnostic { kind: DiagnosticKind::Warning, message, span }
    }
}


/// Name of a diagnostic kind as it appears in rendered text.
pub open spec fn kind_prefix(k: DiagnosticKind) -> Seq<char> {
    match k {
        DiagnosticKind::Error => "error"@,
        DiagnosticKind::Warning => "warning"@,
    }
}

/// The line and the column, both counted from one, of the byte offset
/// `target`, found by a scan over the characters from `i` on: each
/// character that starts before `target` moves the column, and a line feed
/// starts a new line.
pub open spec fn line_col_from(src: Seq<char>, i: int, target: nat, line: nat, col: nat) -> (nat, nat)
    decreases left(src.len(), i),
{
    if 0 <= i < src.len() && utf8_prefix_len(src, i) < target {
        if src[i] == '\n' {
            line_col_from(src, i + 1, target, line + 1, 1)
        } else {
            line_col_from(src, i + 1, target, line, col + 1)
        }
    } else {
        (line, col)
    }
}

/// The line and the column of a byte offset, both counted from one.
pub open spec fn line_col(src: Seq<char>, target: nat) -> (nat, nat) {
    line_col_from(src, 0, target, 1, 1)
}

/// One diagnostic as text: with a span, its place, kind and message, then
/// the source line and a caret under the column; without one, its kind and
/// message.
pub open spec fn rendered(acc: Seq<char>, src: Seq<char>, d: DiagnosticView) -> Seq<char> {
    match d.span {
        Some(span) => {
            let lc = line_col(src, span.start as nat);
            let s = acc + "<input>"@ + ":"@ + dec(lc.0) + ":"@ + dec(lc.1) + ": "@ + kind_prefix(
                d.kind,
            ) + ": "@ + d.message + "\n"@;
            if lc.0 - 1 < lines_of(src).len() {
                s + "  | "@ + lines_of(src)[lc.0 - 1] + "\n"@ + "  | "@ + spaces((lc.1 - 1) as nat)
                    + "^\n"@
            } else {
                s
            }
        },
        None => acc + kind_prefix(d.kind) + ": "@ + d.message + "\n"@,
    }
}

pub open spec fn rendered_from(acc: Seq<char>, src: Seq<char>, ds: Seq<DiagnosticView>, i: int) -> Seq<
    char,
>
    decreases left(ds.len(), i),
{
    if 0 <= i < ds.len() {
        rendered_from(rendered(acc, src, ds[i]), src, ds, i + 1)
    } else {
        acc
    }
}

/// The diagnostics as text, one after the other.
pub open spec fn format_spec(src: Seq<char>, ds: Seq<DiagnosticView>) -> Seq<char> {
    rendered_from(Seq::empty(), src, ds, 0)
}

fn byte_to_line_col(chars: &Vec<char>, byte_offset: usize) -> (r: (u128, u128))
    ensures
        (r.0 as nat, r.1 as nat) == line_col(chars@, byte_offset as nat),
        r.0 >= 1,
        r.1 >= 1,
{
    let mut line: u128 = 1;
    let mut col: u128 = 1;
    let mut offset: u128 = 0;
    let mut i: usize = 0;
    while i < chars.len() && offset < byte_offset as u128
        invariant
            i <= chars.len(),
            offset == utf8_prefix_len(chars@, i as int),
            offset <= 4 * i,
            1 <= line <= i + 1,
            1 <= col <= i + 1,
            line_col_from(chars@, i as int, byte_offset as nat, line as nat, col as nat)
                == line_col(chars@, byte_offset as nat),
        decreases chars.len() - i,
    {
        if chars[i] == '\n' {
            line += 1;
            col = 1;
        } else {
            col += 1;
        }
        offset = offset + char_width(chars[i]) as u128;
        i += 1;
    }
    (line, col)
}

fn kind_name(kind: DiagnosticKind) -> (r: &'static str)
    ensures
        r@ == kind_prefix(kind),
{
    match kind {
        DiagnosticKind::Error => "error",
        DiagnosticKind::Warning => "warning",
    }
}

/// Renders diagnostics against the source: byte offsets are resolved to
/// lines and columns, and the offending line is shown with a caret.
pub fn format_diagnostics(source: &str, diagnostics: &Vec<Diagnostic>) -> (r: String)
    ensures
        r@ == format_spec(source@, diags_view(diagnostics@)),
{
    let chars = chars_of(source);
    let lines = split_lines(&chars);
    let ghost ds = diags_view(diagnostics@);
    let mut out = String::new();
    let mut i: usize = 0;
    while i < diagnostics.len()
        invariant
            i <= diagnostics.len(),
            rendered_from(out@, chars@, ds, i as int) == rendered_from(Seq::empty(), chars@, ds, 0),
        decreases diagnostics.len() - i,
    {
        let diag = &diagnostics[i];
        match &diag.span {
            Some(span) => {
                let (line, col) = byte_to_line_col(&chars, span.start);
                out.append("<input>");
                out.append(":");
                push_u128(&mut out, line);
                out.append(":");
                push_u128(&mut out, col);
                out.append(": ");
                out.append(kind_name(diag.kind));
                out.append(": ");
                out.append(diag.message.as_str());
                out.append("\n");
                if line - 1 < lines.len() as u128 {
                    let k: usize = (line - 1) as usize;
                    assert(rows_view(lines@)[k as int] == lines@[k as int]@);
                    out.append("  | ");
                    let ghost before = out@;
                    push_chars(&mut out, &lines[k], 0, lines[k].len());
                    assert(lines@[k as int]@.subrange(0, lines@[k as int]@.len() as int)
                        =~= lines@[k as int]@);
                    out.append("\n");
                    out.append("  | ");
                    push_spaces(&mut out, col - 1);
                    out.append("^\n");
                }
            },
            None => {
                out.append(kind_name(diag.kind));
                out.append(": ");
                out.append(diag.message.as_str());
                out.append("\n");
            },
        }
        i += 1;
    }
    out
}

impl Diagnostic {
    /// The diagnostic on one line: kind, message and, where known, the bytes
    /// that it is about.
    pub open spec fn summary(self) -> Seq<char> {
        match self.span {
            Some(span) => kind_prefix(self.kind) + ": "@ + self.message@ + " (at byte "@ + dec(
                span.start as nat,
            ) + ".."@ + dec(span.end as nat) + ")"@,
            None => kind_prefix(self.kind) + ": "@ + self.message@,
        }
    }

    /// The diagnostic on one line.
    pub fn to_string(&self) -> (r: String)
        ensures
            r@ == self.summary(),
    {
        let mut out = String::from_str(kind_name(self.kind));
        out.append(": ");
        out.append(self.message.as_str());
        if let Some(span) = &self.span {
            out.append(" (at byte ");
            push_u128(&mut out, span.start as u128);
            out.append("..");
            push_u128(&mut out, span.end as u128);
            out.append(")");
        }
        out
    }
}

} // verus!

//! Identifier casing shared by the code generators and the scaffold.

use vstd::prelude::*;
use vstd::string::StringExecFns;
use crate::text::{char_upper, chars_of, left, lower_text, str_lower, string_from, upper_text};

verus! {

/// Whether `c` separates the segments of a name.
pub open spec fn is_separator(c: char) -> bool {
    c == '-' || c == '_' || c == '/'
}

/// Whether `c` is a trailing marker of a name: `?` or `!`.
pub open spec fn is_marker(c: char) -> bool {
    c == '?' || c == '!'
}

/// The characters of `s` from `i` on in snake case, appended to `acc`: `-`
/// and `/` become `_`, `?` and `!` are dropped.
pub open spec fn snake_from(s: Seq<char>, i: int, acc: Seq<char>) -> Seq<char>
    decreases left(s.len(), i),
{
    if 0 <= i < s.len() {
        snake_from(
            s,
            i + 1,
            if s[i] == '-' || s[i] == '/' {
                acc.push('_')
            } else if is_marker(s[i]) {
                acc
            } else {
                acc.push(s[i])
            },
        )
    } else {
        acc
    }
}

/// `name` in snake case.
pub open spec fn snake(name: Seq<char>) -> Seq<char> {
    snake_from(name, 0, Seq::empty())
}

/// Converts a kebab-case name to snake case, dropping `?` and `!`.
pub fn to_snake(name: &str) -> (r: String)
    ensures
        r@ == snake(name@),
{
    let chars = chars_of(name);
    let mut r = String::new();
    let mut i: usize = 0;
    while i < chars.len()
        invariant
            i <= chars.len(),
            snake_from(chars@, i as int, r@) == snake_from(chars@, 0, Seq::empty()),
        decreases chars.len() - i,
    {
        let c = chars[i];
        if c == '-' || c == '/' {
            r.push('_');
        } else if c == '?' || c == '!' {
        } else {
            r.push(c);
        }
        i += 1;
    }
    r
}

/// A segment with its first character in upper case and the rest in lower case.
pub open spec fn capitalized(part: Seq<char>) -> Seq<char> {
    if part.len() == 0 {
        part
    } else {
        upper_text(part[0]) + lower_text(part.subrange(1, part.len() as int))
    }
}

/// A segment with its first character in upper case and the rest as it is.
pub open spec fn titled(part: Seq<char>) -> Seq<char> {
    if part.len() == 0 {
        part
    } else {
        upper_text(part[0]) + part.subrange(1, part.len() as int)
    }
}

/// The segments of `s` from `i` on in Pascal case, appended to `acc`;
/// `part` is the segment read so far. With `strip`, `?` and `!` are dropped.
pub open spec fn pascal_from(s: Seq<char>, i: int, strip: bool, part: Seq<char>, acc: Seq<char>) -> Seq<
    char,
>
    decreases left(s.len(), i),
{
    if 0 <= i < s.len() {
        if is_separator(s[i]) {
            pascal_from(s, i + 1, strip, Seq::empty(), acc + capitalized(part))
        } else if strip && is_marker(s[i]) {
            pascal_from(s, i + 1, strip, part, acc)
        } else {
            pascal_from(s, i + 1, strip, part.push(s[i]), acc)
        }
    } else {
        acc + capitalized(part)
    }
}

/// `name` in Pascal case: split at `-`, `_` and `/`, each segment capitalized.
pub open spec fn pascal(name: Seq<char>, strip: bool) -> Seq<char> {
    pascal_from(name, 0, strip, Seq::empty(), Seq::empty())
}

/// Appends `part` with its first character in upper case; the rest in lower
/// case where `lower` is set, else as it is.
fn push_capitalized(out: &mut String, part: &Vec<char>, lower: bool)
    ensures
        final(out)@ == old(out)@ + if lower {
            capitalized(part@)
        } else {
            titled(part@)
        },
{
    if part.len() > 0 {
        let first = char_upper(part[0]);
        out.append(first.as_str());
        let rest = string_from(part, 1, part.len());
        if lower {
            let low = str_lower(rest.as_str());
            out.append(low.as_str());
        } else {
            out.append(rest.as_str());
        }
        assert(out@ =~= old(out)@ + if lower {
            capitalized(part@)
        } else {
            titled(part@)
        });
    } else {
        assert(out@ =~= old(out)@ + part@);
    }
}

/// Converts a kebab-case name to Pascal case; with `strip`, `?` and `!` are
/// dropped.
pub fn to_pascal_with(name: &str, strip: bool) -> (r: String)
    ensures
        r@ == pascal(name@, strip),
{
    let chars = chars_of(name);
    let mut r = String::new();
    let mut part: Vec<char> = Vec::new();
    let mut i: usize = 0;
    while i < chars.len()
        invariant
            i <= chars.len(),
            pascal_from(chars@, i as int, strip, part@, r@) == pascal_from(
                chars@,
                0,
                strip,
                Seq::empty(),
                Seq::empty(),
            ),
        decreases chars.len() - i,
    {
        let c = chars[i];
        if c == '-' || c == '_' || c == '/' {
            push_capitalized(&mut r, &part, true);
            part = Vec::new();
        } else if strip && (c == '?' || c == '!') {
        } else {
            part.push(c);
        }
        i += 1;
    }
    push_capitalized(&mut r, &part, true);
    r
}

/// Converts a kebab-case name to Pascal case, dropping `?` and `!`.
pub fn to_pascal(name: &str) -> (r: String)
    ensures
        r@ == pascal(name@, true),
{
    to_pascal_with(name, true)
}

/// The segments of `s` from `i` on in title case, appended to `acc`;
/// `part` is the segment read so far and `first` tells that no segment was
/// written yet.
pub open spec fn title_from(s: Seq<char>, i: int, first: bool, part: Seq<char>, acc: Seq<char>) -> Seq<
    char,
>
    decreases left(s.len(), i),
{
    let sep = if first {
        acc
    } else {
        acc.push(' ')
    };
    if 0 <= i < s.len() {
        if s[i] == '-' || s[i] == '_' {
            title_from(s, i + 1, false, Seq::empty(), sep + titled(part))
        } else {
            title_from(s, i + 1, first, part.push(s[i]), acc)
        }
    } else {
        sep + titled(part)
    }
}

/// `name` in title case: split at `-` and `_`, each segment with its first
/// character in upper case, joined by one space.
pub open spec fn title(name: Seq<char>) -> Seq<char> {
    title_from(name, 0, true, Seq::empty(), Seq::empty())
}

/// Converts a name to title case.
pub fn to_title(name: &str) -> (r: String)
    ensures
        r@ == title(name@),
{
    let chars = chars_of(name);
    let mut r = String::new();
    let mut part: Vec<char> = Vec::new();
    let mut first = true;
    let mut i: usize = 0;
    while i < chars.len()
        invariant
            i <= chars.len(),
            title_from(chars@, i as int, first, part@, r@) == title_from(
                chars@,
                0,
                true,
                Seq::empty(),
                Seq::empty(),
            ),
        decreases chars.len() - i,
    {
        let c = chars[i];
        if c == '-' || c == '_' {
            if !first {
                r.push(' ');
            }
            push_capitalized(&mut r, &part, false);
            part = Vec::new();
            first = false;
        } else {
            part.push(c);
        }
        i += 1;
    }
    if !first {
        r.push(' ');
    }
    push_capitalized(&mut r, &part, false);
    r
}


/// The segments of `s` from `i` on, split at `-` only, each with its first
/// character in upper case, joined by one space; see `title_from`.
pub open spec fn phrase_from(s: Seq<char>, i: int, first: bool, part: Seq<char>, acc: Seq<char>) -> Seq<
    char,
>
    decreases left(s.len(), i),
{
    let sep = if first {
        acc
    } else {
        acc.push(' ')
    };
    if 0 <= i < s.len() {
        if s[i] == '-' {
            phrase_from(s, i + 1, false, Seq::empty(), sep + titled(part))
        } else {
            phrase_from(s, i + 1, first, part.push(s[i]), acc)
        }
    } else {
        sep + titled(part)
    }
}

/// A tag as a phrase: split at `-`, each segment with its first character
/// in upper case, joined by one space.
pub open spec fn phrase(tag: Seq<char>) -> Seq<char> {
    phrase_from(tag, 0, true, Seq::empty(), Seq::empty())
}

/// Converts a tag such as `not-found` to a phrase such as `Not Found`.
pub fn to_phrase(tag: &str) -> (r: String)
    ensures
        r@ == phrase(tag@),
{
    let chars = chars_of(tag);
    let mut r = String::new();
    let mut part: Vec<char> = Vec::new();
    let mut first = true;
    let mut i: usize = 0;
    while i < chars.len()
        invariant
            i <= chars.len(),
            phrase_from(chars@, i as int, first, part@, r@) == phrase_from(
                chars@,
                0,
                true,
                Seq::empty(),
                Seq::empty(),
            ),
        decreases chars.len() - i,
    {
        let c = chars[i];
        if c == '-' {
            if !first {
                r.push(' ');
            }
            push_capitalized(&mut r, &part, false);
            part = Vec::new();
            first = false;
        } else {
            part.push(c);
        }
        i += 1;
    }
    if !first {
        r.push(' ');
    }
    push_capitalized(&mut r, &part, false);
    r
}

} // verus!

//! Character and string helpers shared by every stage of the compiler.
//!
//! All text is modelled as `Seq<char>`; byte offsets are derived from the
//! UTF-8 width of each character.

use vstd::prelude::*;
use vstd::string::{StringExecFns, StrSliceExecFns, StringSliceAdditionalSpecFns};
use vstd::utf8::{char_is_scalar, encode_scalar, encode_utf8};

verus! {

/// `String::push` appends exactly one character to the end of the string.
pub assume_specification[ std::string::String::push ](s: &mut String, c: char)
    ensures
        final(s)@ == old(s)@.push(c),
;

/// `str` equality holds exactly when both slices hold the same characters.
pub assume_specification[ <str as PartialEq>::eq ](a: &str, b: &str) -> (r: bool)
    ensures
        r == (a@ == b@),
;

/// Whether two string slices hold the same characters.
pub fn str_eq(a: &str, b: &str) -> (r: bool)
    ensures
        r == (a@ == b@),
{
    PartialEq::eq(a, b)
}

/// Number of bytes that `c` occupies in UTF-8.
pub open spec fn utf8_width(c: char) -> nat {
    let n = c as u32;
    if n < 0x80 {
        1
    } else if n < 0x800 {
        2
    } else if n < 0x10000 {
        3
    } else {
        4
    }
}

/// Number of bytes that the first `i` characters of `s` occupy in UTF-8.
pub open spec fn utf8_prefix_len(s: Seq<char>, i: int) -> nat
    decreases i,
{
    if i <= 0 {
        0
    } else {
        utf8_prefix_len(s, i - 1) + utf8_width(s[i - 1])
    }
}

/// Number of bytes that `s` occupies in UTF-8.
pub open spec fn utf8_len(s: Seq<char>) -> nat {
    utf8_prefix_len(s, s.len() as int)
}

/// Byte offsets grow with the character index, by at least one byte per character.
pub proof fn lemma_utf8_prefix_monotonic(s: Seq<char>, i: int, j: int)
    requires
        0 <= i <= j,
    ensures
        utf8_prefix_len(s, i) + (j - i) <= utf8_prefix_len(s, j),
    decreases j - i,
{
    if i < j {
        lemma_utf8_prefix_monotonic(s, i, j - 1);
    }
}

/// The byte offset of a character index depends only on the characters before it.
pub proof fn lemma_utf8_prefix_agree(a: Seq<char>, b: Seq<char>, i: int)
    requires
        0 <= i <= a.len(),
        i <= b.len(),
        forall|k: int| 0 <= k < i ==> a[k] == b[k],
    ensures
        utf8_prefix_len(a, i) == utf8_prefix_len(b, i),
    decreases i,
{
    if i > 0 {
        lemma_utf8_prefix_agree(a, b, i - 1);
    }
}

pub fn char_width(c: char) -> (w: usize)
    ensures
        w == utf8_width(c),
{
    let n: u32 = c as u32;
    if n < 0x80 {
        1
    } else if n < 0x800 {
        2
    } else if n < 0x10000 {
        3
    } else {
        4
    }
}

/// The characters of `s`, in order.
pub fn chars_of(s: &str) -> (v: Vec<char>)
    ensures
        v@ == s@,
{
    let mut v: Vec<char> = Vec::new();
    for c in it: s.chars()
        invariant
            v@ == it.seq().take(it.index() as int),
            it.seq() == s@,
    {
        v.push(c);
    }
    v
}

/// Appends the characters `v[from..to]` to `out`.
pub fn push_chars(out: &mut String, v: &Vec<char>, from: usize, to: usize)
    requires
        from <= to <= v.len(),
    ensures
        final(out)@ == old(out)@ + v@.subrange(from as int, to as int),
{
    let mut i: usize = from;
    while i < to
        invariant
            from <= i <= to <= v.len(),
            out@ == old(out)@ + v@.subrange(from as int, i as int),
        decreases to - i,
    {
        out.push(v[i]);
        i += 1;
        assert(out@ =~= old(out)@ + v@.subrange(from as int, i as int));
    }
}

/// A fresh string holding the characters `v[from..to]`.
pub fn string_from(v: &Vec<char>, from: usize, to: usize) -> (s: String)
    requires
        from <= to <= v.len(),
    ensures
        s@ == v@.subrange(from as int, to as int),
{
    let mut s = String::new();
    push_chars(&mut s, v, from, to);
    assert(s@ =~= v@.subrange(from as int, to as int));
    s
}

/// A fresh string holding all of `v`.
pub fn string_of(v: &Vec<char>) -> (s: String)
    ensures
        s@ == v@,
{
    let s = string_from(v, 0, v.len());
    assert(v@.subrange(0, v.len() as int) =~= v@);
    s
}

/// A fresh string with the characters of `s`.
pub fn owned(s: &str) -> (r: String)
    ensures
        r@ == s@,
{
    String::from_str(s)
}

/// The decimal digit for `d`, for `d` below ten.
pub open spec fn digit_char(d: int) -> char {
    if d == 0 {
        '0'
    } else if d == 1 {
        '1'
    } else if d == 2 {
        '2'
    } else if d == 3 {
        '3'
    } else if d == 4 {
        '4'
    } else if d == 5 {
        '5'
    } else if d == 6 {
        '6'
    } else if d == 7 {
        '7'
    } else if d == 8 {
        '8'
    } else {
        '9'
    }
}

pub fn digit_of(d: u64) -> (c: char)
    requires
        d < 10,
    ensures
        c == digit_char(d as int),
{
    if d == 0 {
        '0'
    } else if d == 1 {
        '1'
    } else if d == 2 {
        '2'
    } else if d == 3 {
        '3'
    } else if d == 4 {
        '4'
    } else if d == 5 {
        '5'
    } else if d == 6 {
        '6'
    } else if d == 7 {
        '7'
    } else if d == 8 {
        '8'
    } else {
        '9'
    }
}

/// Decimal rendering of a natural number, without leading zeros.
pub open spec fn dec(n: nat) -> Seq<char>
    decreases n,
{
    if n < 10 {
        seq![digit_char(n as int)]
    } else {
        dec(n / 10).push(digit_char((n % 10) as int))
    }
}

/// Decimal rendering of an integer, with a leading `-` when negative.
pub open spec fn dec_int(n: int) -> Seq<char> {
    if n < 0 {
        seq!['-'] + dec((-n) as nat)
    } else {
        dec(n as nat)
    }
}

/// Appends the decimal rendering of `n`.
pub fn push_u64(out: &mut String, n: u64)
    ensures
        final(out)@ == old(out)@ + dec(n as nat),
    decreases n,
{
    if n < 10 {
        out.push(digit_of(n));
        assert(out@ =~= old(out)@ + dec(n as nat));
    } else {
        push_u64(out, n / 10);
        out.push(digit_of(n % 10));
        assert(out@ =~= old(out)@ + dec(n as nat));
    }
}

/// Appends the decimal rendering of `n`.
pub fn push_usize(out: &mut String, n: usize)
    ensures
        final(out)@ == old(out)@ + dec(n as nat),
{
    push_u64(out, n as u64);
}

/// Appends the decimal rendering of `n`.
pub fn push_i64(out: &mut String, n: i64)
    ensures
        final(out)@ == old(out)@ + dec_int(n as int),
{
    if n < 0 {
        out.push('-');
        let m: u64 = ((-(n + 1)) as u64) + 1;
        push_u64(out, m);
        assert(out@ =~= old(out)@ + dec_int(n as int));
    } else {
        push_u64(out, n as u64);
    }
}

/// Mapping a sequence after a push is the same as pushing the mapped element.
pub proof fn lemma_map_push<A, B>(s: Seq<A>, x: A, f: spec_fn(A) -> B)
    ensures
        s.push(x).map_values(f) == s.map_values(f).push(f(x)),
{
    assert(s.push(x).map_values(f) =~= s.map_values(f).push(f(x)));
}


/// Number of positions from `i` up to `len`; zero from `len` on.
pub open spec fn left(len: nat, i: int) -> nat {
    if i < len {
        (len - i) as nat
    } else {
        0
    }
}


/// Whether the last character of `s` is `c`.
pub open spec fn ends_with_char(s: Seq<char>, c: char) -> bool {
    s.len() > 0 && s[s.len() - 1] == c
}

/// Whether the last character of `s` is `c`.
pub fn str_ends_with_char(s: &str, c: char) -> (r: bool)
    ensures
        r == ends_with_char(s@, c),
{
    let n = s.unicode_len();
    n > 0 && s.get_char(n - 1) == c
}

/// The text that `std`'s `Debug` formatting gives for a string: the string
/// in double quotes, with the characters that Rust escapes written as escapes.
pub uninterp spec fn debug_text(s: Seq<char>) -> Seq<char>;

/// `format!("{:?}", s)` for a string slice: what `Debug` for `str` writes,
/// which depends on the characters alone.
#[verifier::external_body]
pub(crate) fn debug_quoted(s: &str) -> (r: String)
    ensures
        r@ == debug_text(s@),
{
    format!("{:?}", s)
}


/// The uppercase mapping of a character as `char::to_uppercase` gives it;
/// it may hold more than one character.
pub uninterp spec fn upper_text(c: char) -> Seq<char>;

/// The lowercase form of a string as `str::to_lowercase` gives it.
pub uninterp spec fn lower_text(s: Seq<char>) -> Seq<char>;

/// Whether `char::is_alphanumeric` holds of a character.
pub uninterp spec fn alphanumeric(c: char) -> bool;

/// `char::to_uppercase`, collected into a string: the Unicode uppercase
/// mapping of one character, which depends on the character alone.
#[verifier::external_body]
pub(crate) fn char_upper(c: char) -> (r: String)
    ensures
        r@ == upper_text(c),
{
    c.to_uppercase().collect()
}

/// `str::to_lowercase`: the Unicode lowercase form of a string, which
/// depends on its characters alone.
#[verifier::external_body]
pub(crate) fn str_lower(s: &str) -> (r: String)
    ensures
        r@ == lower_text(s@),
{
    s.to_lowercase()
}

/// `char::is_alphanumeric`: whether Unicode classes the character as a
/// letter or a number.
#[verifier::external_body]
pub(crate) fn is_alphanumeric(c: char) -> (r: bool)
    ensures
        r == alphanumeric(c),
{
    c.is_alphanumeric()
}

/// `acc` followed by one line: the indentation, the text, a line feed.
pub open spec fn text_line(acc: Seq<char>, ind: Seq<char>, text: Seq<char>) -> Seq<char> {
    (acc + ind + text).push('\n')
}

/// `acc` followed by an empty line.
pub open spec fn blank_line(acc: Seq<char>) -> Seq<char> {
    acc.push('\n')
}

/// The indentation one level deeper than `ind`.
pub open spec fn deeper(ind: Seq<char>) -> Seq<char> {
    ind + "    "@
}

/// The indentation one level deeper than `ind`.
pub fn indent_more(ind: &str) -> (r: String)
    ensures
        r@ == deeper(ind@),
{
    let mut r = String::from_str(ind);
    r.append("    ");
    r
}

/// Appends an empty line.
pub fn emit_blank(out: &mut String)
    ensures
        final(out)@ == blank_line(old(out)@),
{
    out.push('\n');
}

/// Appends one line made of `a`.
pub fn emit1(out: &mut String, ind: &str, a: &str)
    ensures
        final(out)@ == text_line(old(out)@, ind@, a@),
{
    out.append(ind);
    out.append(a);
    out.push('\n');
}

/// Appends one line made of `a` and `b`.
pub fn emit2(out: &mut String, ind: &str, a: &str, b: &str)
    ensures
        final(out)@ == text_line(old(out)@, ind@, a@ + b@),
{
    out.append(ind);
    out.append(a);
    out.append(b);
    out.push('\n');
    assert(out@ =~= text_line(old(out)@, ind@, a@ + b@));
}

/// Appends one line made of three parts.
pub fn emit3(out: &mut String, ind: &str, a: &str, b: &str, c: &str)
    ensures
        final(out)@ == text_line(old(out)@, ind@, a@ + b@ + c@),
{
    out.append(ind);
    out.append(a);
    out.append(b);
    out.append(c);
    out.push('\n');
    assert(out@ =~= text_line(old(out)@, ind@, a@ + b@ + c@));
}

/// Appends one line made of four parts.
pub fn emit4(out: &mut String, ind: &str, a: &str, b: &str, c: &str, d: &str)
    ensures
        final(out)@ == text_line(old(out)@, ind@, a@ + b@ + c@ + d@),
{
    out.append(ind);
    out.append(a);
    out.append(b);
    out.append(c);
    out.append(d);
    out.push('\n');
    assert(out@ =~= text_line(old(out)@, ind@, a@ + b@ + c@ + d@));
}

/// Appends one line made of five parts.
pub fn emit5(out: &mut String, ind: &str, a: &str, b: &str, c: &str, d: &str, e: &str)
    ensures
        final(out)@ == text_line(old(out)@, ind@, a@ + b@ + c@ + d@ + e@),
{
    out.append(ind);
    out.append(a);
    out.append(b);
    out.append(c);
    out.append(d);
    out.append(e);
    out.push('\n');
    assert(out@ =~= text_line(old(out)@, ind@, a@ + b@ + c@ + d@ + e@));
}

/// Appends one line made of six parts.
pub fn emit6(out: &mut String, ind: &str, a: &str, b: &str, c: &str, d: &str, e: &str, f: &str)
    ensures
        final(out)@ == text_line(old(out)@, ind@, a@ + b@ + c@ + d@ + e@ + f@),
{
    out.append(ind);
    out.append(a);
    out.append(b);
    out.append(c);
    out.append(d);
    out.append(e);
    out.append(f);
    out.push('\n');
    assert(out@ =~= text_line(old(out)@, ind@, a@ + b@ + c@ + d@ + e@ + f@));
}

/// Appends one line made of seven parts.
pub fn emit7(
    out: &mut String,
    ind: &str,
    a: &str,
    b: &str,
    c: &str,
    d: &str,
    e: &str,
    f: &str,
    g: &str,
)
    ensures
        final(out)@ == text_line(old(out)@, ind@, a@ + b@ + c@ + d@ + e@ + f@ + g@),
{
    out.append(ind);
    out.append(a);
    out.append(b);
    out.append(c);
    out.append(d);
    out.append(e);
    out.append(f);
    out.append(g);
    out.push('\n');
    assert(out@ =~= text_line(old(out)@, ind@, a@ + b@ + c@ + d@ + e@ + f@ + g@));
}

/// Appends one line made of nine parts.
pub fn emit9(
    out: &mut String,
    ind: &str,
    a: &str,
    b: &str,
    c: &str,
    d: &str,
    e: &str,
    f: &str,
    g: &str,
    h: &str,
    i: &str,
)
    ensures
        final(out)@ == text_line(old(out)@, ind@, a@ + b@ + c@ + d@ + e@ + f@ + g@ + h@ + i@),
{
    out.append(ind);
    out.append(a);
    out.append(b);
    out.append(c);
    out.append(d);
    out.append(e);
    out.append(f);
    out.append(g);
    out.append(h);
    out.append(i);
    out.push('\n');
    assert(out@ =~= text_line(old(out)@, ind@, a@ + b@ + c@ + d@ + e@ + f@ + g@ + h@ + i@));
}

/// The decimal rendering of `n`.
pub fn i64_text(n: i64) -> (r: String)
    ensures
        r@ == dec_int(n as int),
{
    let mut r = String::new();
    push_i64(&mut r, n);
    assert(r@ =~= dec_int(n as int));
    r
}

/// The decimal rendering of `n`.
pub fn u64_text(n: u64) -> (r: String)
    ensures
        r@ == dec(n as nat),
{
    let mut r = String::new();
    push_u64(&mut r, n);
    assert(r@ =~= dec(n as nat));
    r
}

/// `strs` joined with `sep` between neighbours, from `i` on, appended to `acc`.
pub open spec fn join_from(acc: Seq<char>, strs: Seq<Seq<char>>, sep: Seq<char>, i: int) -> Seq<char>
    decreases left(strs.len(), i),
{
    if 0 <= i < strs.len() {
        let s = if i > 0 {
            acc + sep
        } else {
            acc
        };
        join_from(s + strs[i], strs, sep, i + 1)
    } else {
        acc
    }
}

/// `strs` joined with `sep` between neighbours.
pub open spec fn joined(strs: Seq<Seq<char>>, sep: Seq<char>) -> Seq<char> {
    join_from(Seq::empty(), strs, sep, 0)
}

/// Appends the strings of `v` with `sep` between neighbours.
pub fn push_joined(out: &mut String, v: &Vec<String>, sep: &str)
    ensures
        final(out)@ == join_from(old(out)@, Seq::new(v@.len(), |i: int| v@[i]@), sep@, 0),
{
    let ghost strs = Seq::new(v@.len(), |i: int| v@[i]@);
    let mut i: usize = 0;
    while i < v.len()
        invariant
            i <= v.len(),
            join_from(out@, strs, sep@, i as int) == join_from(old(out)@, strs, sep@, 0),
        decreases v.len() - i,
    {
        if i > 0 {
            out.append(sep);
        }
        out.append(v[i].as_str());
        i += 1;
    }
}

/// The strings of `v` joined with `sep` between neighbours.
pub fn join(v: &Vec<String>, sep: &str) -> (r: String)
    ensures
        r@ == joined(Seq::new(v@.len(), |i: int| v@[i]@), sep@),
{
    let ghost strs = Seq::new(v@.len(), |i: int| v@[i]@);
    let mut r = String::new();
    let mut i: usize = 0;
    while i < v.len()
        invariant
            i <= v.len(),
            join_from(r@, strs, sep@, i as int) == join_from(Seq::empty(), strs, sep@, 0),
        decreases v.len() - i,
    {
        if i > 0 {
            r.append(sep);
        }
        r.append(v[i].as_str());
        i += 1;
    }
    r
}


/// `acc` followed by the strings from `i` on as `Debug` writes the items of
/// a list of strings: each in quotes, separated by `, `.
pub open spec fn debug_items(acc: Seq<char>, strs: Seq<Seq<char>>, i: int) -> Seq<char>
    decreases left(strs.len(), i),
{
    if 0 <= i < strs.len() {
        let sep = if i > 0 {
            acc + ", "@
        } else {
            acc
        };
        debug_items(sep + debug_text(strs[i]), strs, i + 1)
    } else {
        acc
    }
}

/// `acc` followed by what `Debug` writes for a list of strings.
pub open spec fn debug_list(acc: Seq<char>, strs: Seq<Seq<char>>) -> Seq<char> {
    debug_items(acc.push('['), strs, 0).push(']')
}

/// Appends what `Debug` writes for a list of strings.
pub fn push_debug_list(out: &mut String, v: &Vec<String>)
    ensures
        final(out)@ == debug_list(old(out)@, Seq::new(v@.len(), |i: int| v@[i]@)),
{
    let ghost strs = Seq::new(v@.len(), |i: int| v@[i]@);
    out.push('[');
    let ghost start = out@;
    let mut k: usize = 0;
    while k < v.len()
        invariant
            k <= v.len(),
            debug_items(out@, strs, k as int) == debug_items(start, strs, 0),
        decreases v.len() - k,
    {
        if k > 0 {
            out.append(", ");
        }
        let quoted = debug_quoted(v[k].as_str());
        out.append(quoted.as_str());
        k += 1;
    }
    out.push(']');
}


/// Appends the decimal rendering of `n`.
pub fn push_u128(out: &mut String, n: u128)
    ensures
        final(out)@ == old(out)@ + dec(n as nat),
    decreases n,
{
    if n < 10 {
        out.push(digit_of(n as u64));
        assert(out@ =~= old(out)@ + dec(n as nat));
    } else {
        push_u128(out, n / 10);
        out.push(digit_of((n % 10) as u64));
        assert(out@ =~= old(out)@ + dec(n as nat));
    }
}

/// `n` spaces.
pub open spec fn spaces(n: nat) -> Seq<char>
    decreases n,
{
    if n == 0 {
        Seq::empty()
    } else {
        spaces((n - 1) as nat).push(' ')
    }
}

/// Appends `n` spaces.
pub fn push_spaces(out: &mut String, n: u128)
    ensures
        final(out)@ == old(out)@ + spaces(n as nat),
{
    let mut i: u128 = 0;
    assert(out@ =~= old(out)@ + spaces(0));
    while i < n
        invariant
            i <= n,
            out@ == old(out)@ + spaces(i as nat),
        decreases n - i,
    {
        out.push(' ');
        i += 1;
        assert(out@ =~= old(out)@ + spaces(i as nat));
    }
}


proof fn lemma_prefix_len_front(s: Seq<char>, i: int)
    requires
        1 <= i <= s.len(),
    ensures
        utf8_prefix_len(s, i) == utf8_width(s[0]) + utf8_prefix_len(s.drop_first(), i - 1),
    decreases i,
{
    if i > 1 {
        lemma_prefix_len_front(s, i - 1);
        assert(s.drop_first()[i - 2] == s[i - 1]);
        assert(utf8_prefix_len(s.drop_first(), i - 1) == utf8_prefix_len(s.drop_first(), i - 2)
            + utf8_width(s.drop_first()[i - 2]));
    } else {
        assert(utf8_prefix_len(s, 0) == 0);
        assert(utf8_prefix_len(s.drop_first(), 0) == 0);
    }
}

/// The byte length of a text is the length of its UTF-8 encoding.
pub proof fn lemma_utf8_len_encoded(s: Seq<char>)
    ensures
        utf8_len(s) == encode_utf8(s).len(),
    decreases s.len(),
{
    if s.len() > 0 {
        char_is_scalar(s[0]);
        lemma_utf8_len_encoded(s.drop_first());
        lemma_prefix_len_front(s, s.len() as int);
    }
}

/// The byte length of a string fits the machine word.
pub fn check_len(s: &str)
    ensures
        utf8_len(s@) <= usize::MAX,
{
    let bytes = s.as_bytes();
    let n = bytes.len();
    proof {
        lemma_utf8_len_encoded(s@);
    }
}

} // verus!

//! Searching, trimming and splitting of character sequences.

use vstd::prelude::*;
use crate::text::left;

verus! {

/// Whether `char::is_whitespace` holds of a character: whether Unicode
/// gives it the property `White_Space`.
pub uninterp spec fn whitespace(c: char) -> bool;

/// `char::is_whitespace`, which depends on the character alone.
#[verifier::external_body]
pub(crate) fn is_whitespace(c: char) -> (r: bool)
    ensures
        r == whitespace(c),
{
    c.is_whitespace()
}

/// The first index from `i` up to `to` that holds no whitespace.
pub open spec fn lead_ws(s: Seq<char>, i: int, to: int) -> int
    decreases to - i,
{
    if 0 <= i < to <= s.len() && whitespace(s[i]) {
        lead_ws(s, i + 1, to)
    } else {
        i
    }
}

/// The index after the last character before `j`, down to `from`, that is
/// no whitespace.
pub open spec fn trail_ws(s: Seq<char>, from: int, j: int) -> int
    decreases j - from,
{
    if 0 <= from < j <= s.len() && whitespace(s[j - 1]) {
        trail_ws(s, from, j - 1)
    } else {
        j
    }
}

pub proof fn lemma_lead_ws_bounds(s: Seq<char>, i: int, to: int)
    requires
        0 <= i <= to <= s.len(),
    ensures
        i <= lead_ws(s, i, to) <= to,
    decreases to - i,
{
    if i < to && whitespace(s[i]) {
        lemma_lead_ws_bounds(s, i + 1, to);
    }
}

pub proof fn lemma_trail_ws_bounds(s: Seq<char>, from: int, j: int)
    requires
        0 <= from <= j <= s.len(),
    ensures
        from <= trail_ws(s, from, j) <= j,
    decreases j - from,
{
    if from < j && whitespace(s[j - 1]) {
        lemma_trail_ws_bounds(s, from, j - 1);
    }
}

/// Where the part of `s[from..to]` without leading whitespace starts.
pub open spec fn trim_start_at(s: Seq<char>, from: int, to: int) -> int {
    lead_ws(s, from, to)
}

/// Where the part of `s[from..to]` without surrounding whitespace ends.
pub open spec fn trim_end_at(s: Seq<char>, from: int, to: int) -> int {
    trail_ws(s, lead_ws(s, from, to), to)
}

/// `s[from..to]` without leading and trailing whitespace.
pub open spec fn trimmed_range(s: Seq<char>, from: int, to: int) -> Seq<char> {
    s.subrange(trim_start_at(s, from, to), trim_end_at(s, from, to))
}

/// `s` without leading and trailing whitespace.
pub open spec fn trimmed(s: Seq<char>) -> Seq<char> {
    trimmed_range(s, 0, s.len() as int)
}

/// The bounds of `v[from..to]` without leading and trailing whitespace.
pub fn trim_range(v: &Vec<char>, from: usize, to: usize) -> (r: (usize, usize))
    requires
        from <= to <= v.len(),
    ensures
        r.0 == trim_start_at(v@, from as int, to as int),
        r.1 == trim_end_at(v@, from as int, to as int),
        from <= r.0 <= r.1 <= to,
{
    let mut a: usize = from;
    while a < to && is_whitespace(v[a])
        invariant
            from <= a <= to,
            lead_ws(v@, a as int, to as int) == lead_ws(v@, from as int, to as int),
        decreases to - a,
    {
        a += 1;
    }
    let mut b: usize = to;
    while b > a && is_whitespace(v[b - 1])
        invariant
            a <= b <= to,
            trail_ws(v@, a as int, b as int) == trail_ws(v@, a as int, to as int),
        decreases b - a,
    {
        b -= 1;
    }
    (a, b)
}

/// A fresh vector holding `v[from..to]`.
pub fn slice_chars(v: &Vec<char>, from: usize, to: usize) -> (r: Vec<char>)
    requires
        from <= to <= v.len(),
    ensures
        r@ == v@.subrange(from as int, to as int),
{
    let mut r: Vec<char> = Vec::new();
    let mut i: usize = from;
    while i < to
        invariant
            from <= i <= to,
            r@ == v@.subrange(from as int, i as int),
        decreases to - i,
    {
        r.push(v[i]);
        i += 1;
        assert(r@ =~= v@.subrange(from as int, i as int));
    }
    assert(r@ =~= v@.subrange(from as int, to as int));
    r
}

/// `v` without leading and trailing whitespace.
pub fn trim_chars(v: &Vec<char>) -> (r: Vec<char>)
    ensures
        r@ == trimmed(v@),
{
    let (a, b) = trim_range(v, 0, v.len());
    slice_chars(v, a, b)
}

/// Whether `pat` stands in `s` at `i`.
pub open spec fn matches_at(s: Seq<char>, pat: Seq<char>, i: int) -> bool {
    0 <= i && i + pat.len() <= s.len() && s.subrange(i, i + pat.len()) == pat
}

/// Whether `pat` stands in `v` at `i`.
pub fn pattern_at(v: &Vec<char>, pat: &Vec<char>, i: usize) -> (r: bool)
    ensures
        r == matches_at(v@, pat@, i as int),
{
    if pat.len() > v.len() || i > v.len() - pat.len() {
        return false;
    }
    let mut k: usize = 0;
    while k < pat.len()
        invariant
            k <= pat.len(),
            i + pat.len() <= v.len(),
            forall|j: int| 0 <= j < k ==> v@[i + j] == pat@[j],
        decreases pat.len() - k,
    {
        if v[i + k] != pat[k] {
            assert(v@.subrange(i as int, i + pat.len())[k as int] != pat@[k as int]);
            return false;
        }
        k += 1;
    }
    assert(v@.subrange(i as int, i + pat.len()) =~= pat@);
    true
}

/// The first index from `i` on at which `pat` stands in `s`.
pub open spec fn find_from(s: Seq<char>, pat: Seq<char>, i: int) -> Option<int>
    decreases left(s.len(), i),
{
    if 0 <= i < s.len() || (i == s.len() && pat.len() == 0) {
        if matches_at(s, pat, i) {
            Some(i)
        } else if i < s.len() {
            find_from(s, pat, i + 1)
        } else {
            None
        }
    } else {
        None
    }
}

/// Whether `pat` occurs in `s`.
pub open spec fn contains(s: Seq<char>, pat: Seq<char>) -> bool {
    find_from(s, pat, 0).is_some()
}

/// Whether `s` starts with `pat`.
pub open spec fn starts_with(s: Seq<char>, pat: Seq<char>) -> bool {
    matches_at(s, pat, 0)
}

/// Whether `s` ends with `pat`.
pub open spec fn ends_with(s: Seq<char>, pat: Seq<char>) -> bool {
    matches_at(s, pat, s.len() - pat.len())
}

/// The first index from `from` on at which `pat` stands in `v`.
pub fn find_sub(v: &Vec<char>, pat: &Vec<char>, from: usize) -> (r: Option<usize>)
    requires
        from <= v.len(),
    ensures
        match r {
            Some(i) => find_from(v@, pat@, from as int) == Some(i as int) && from <= i && i
                + pat@.len() <= v@.len(),
            None => find_from(v@, pat@, from as int).is_none(),
        },
{
    let mut i: usize = from;
    while i < v.len()
        invariant
            from <= i <= v.len(),
            find_from(v@, pat@, i as int) == find_from(v@, pat@, from as int),
        decreases v.len() - i,
    {
        if pattern_at(v, pat, i) {
            return Some(i);
        }
        i += 1;
    }
    if pat.len() == 0 {
        assert(v@.subrange(i as int, i as int) =~= pat@);
        Some(i)
    } else {
        None
    }
}

/// Whether `pat` occurs in `v`.
pub fn has_sub(v: &Vec<char>, pat: &Vec<char>) -> (r: bool)
    ensures
        r == contains(v@, pat@),
{
    find_sub(v, pat, 0).is_some()
}

/// Whether `v` starts with `pat`.
pub fn has_prefix(v: &Vec<char>, pat: &Vec<char>) -> (r: bool)
    ensures
        r == starts_with(v@, pat@),
{
    pattern_at(v, pat, 0)
}

/// Whether `v` ends with `pat`.
pub fn has_suffix(v: &Vec<char>, pat: &Vec<char>) -> (r: bool)
    ensures
        r == ends_with(v@, pat@),
{
    if pat.len() > v.len() {
        false
    } else {
        pattern_at(v, pat, v.len() - pat.len())
    }
}

/// Whether two vectors hold the same characters.
pub fn same_chars(a: &Vec<char>, b: &Vec<char>) -> (r: bool)
    ensures
        r == (a@ == b@),
{
    if a.len() != b.len() {
        return false;
    }
    let r = pattern_at(a, b, 0);
    assert(a@.subrange(0, a@.len() as int) =~= a@);
    r
}

/// The parts of `s` between occurrences of `c`, from `i` on, appended to
/// `acc`; `start` is where the part being read began.
pub open spec fn split_from(s: Seq<char>, c: char, i: int, start: int, acc: Seq<Seq<char>>) -> Seq<
    Seq<char>,
>
    decreases left(s.len(), i),
{
    if 0 <= start <= i < s.len() {
        if s[i] == c {
            split_from(s, c, i + 1, i + 1, acc.push(s.subrange(start, i)))
        } else {
            split_from(s, c, i + 1, start, acc)
        }
    } else if 0 <= start <= s.len() {
        acc.push(s.subrange(start, s.len() as int))
    } else {
        acc
    }
}

/// The parts of `s` between occurrences of `c`; there is one part more than
/// there are occurrences.
pub open spec fn split(s: Seq<char>, c: char) -> Seq<Seq<char>> {
    split_from(s, c, 0, 0, Seq::empty())
}

/// The views of a sequence of character vectors.
pub open spec fn rows_view(v: Seq<Vec<char>>) -> Seq<Seq<char>> {
    Seq::new(v.len(), |i: int| v[i]@)
}

pub broadcast proof fn lemma_rows_view_push(v: Seq<Vec<char>>, x: Vec<char>)
    ensures
        #[trigger] rows_view(v.push(x)) == rows_view(v).push(x@),
{
    assert(rows_view(v.push(x)) =~= rows_view(v).push(x@));
}

pub broadcast proof fn lemma_rows_view_empty()
    ensures
        #[trigger] rows_view(Seq::<Vec<char>>::empty()) == Seq::<Seq<char>>::empty(),
{
    assert(rows_view(Seq::<Vec<char>>::empty()) =~= Seq::<Seq<char>>::empty());
}

/// The parts of `v` between occurrences of `c`.
pub fn split_chars(v: &Vec<char>, c: char) -> (r: Vec<Vec<char>>)
    ensures
        rows_view(r@) == split(v@, c),
{
    broadcast use {lemma_rows_view_push, lemma_rows_view_empty};

    let mut r: Vec<Vec<char>> = Vec::new();
    let mut start: usize = 0;
    let mut i: usize = 0;
    while i < v.len()
        invariant
            start <= i <= v.len(),
            split_from(v@, c, i as int, start as int, rows_view(r@)) == split_from(
                v@,
                c,
                0,
                0,
                Seq::empty(),
            ),
        decreases v.len() - i,
    {
        if v[i] == c {
            r.push(slice_chars(v, start, i));
            start = i + 1;
        }
        i += 1;
    }
    r.push(slice_chars(v, start, v.len()));
    r
}

/// The lines of `s` from `i` on, appended to `acc`; `start` is where the
/// line being read began. A line ends at a line feed; a carriage return
/// just before the line feed is not part of the line. What follows the last
/// line feed is a line unless it is empty.
pub open spec fn lines_from(s: Seq<char>, i: int, start: int, acc: Seq<Seq<char>>) -> Seq<Seq<char>>
    decreases left(s.len(), i),
{
    if 0 <= start <= i < s.len() {
        if s[i] == '\n' {
            lines_from(
                s,
                i + 1,
                i + 1,
                acc.push(
                    if start < i && s[i - 1] == '\r' {
                        s.subrange(start, i - 1)
                    } else {
                        s.subrange(start, i)
                    },
                ),
            )
        } else {
            lines_from(s, i + 1, start, acc)
        }
    } else if 0 <= start < s.len() {
        acc.push(s.subrange(start, s.len() as int))
    } else {
        acc
    }
}

/// The lines of `s`.
pub open spec fn lines_of(s: Seq<char>) -> Seq<Seq<char>> {
    lines_from(s, 0, 0, Seq::empty())
}

/// The lines of `v`.
pub fn split_lines(v: &Vec<char>) -> (r: Vec<Vec<char>>)
    ensures
        rows_view(r@) == lines_of(v@),
{
    broadcast use {lemma_rows_view_push, lemma_rows_view_empty};

    let mut r: Vec<Vec<char>> = Vec::new();
    let mut start: usize = 0;
    let mut i: usize = 0;
    while i < v.len()
        invariant
            start <= i <= v.len(),
            lines_from(v@, i as int, start as int, rows_view(r@)) == lines_from(
                v@,
                0,
                0,
                Seq::empty(),
            ),
        decreases v.len() - i,
    {
        if v[i] == '\n' {
            if start < i && v[i - 1] == '\r' {
                r.push(slice_chars(v, start, i - 1));
            } else {
                r.push(slice_chars(v, start, i));
            }
            start = i + 1;
        }
        i += 1;
    }
    if start < v.len() {
        r.push(slice_chars(v, start, v.len()));
    }
    r
}

/// The last index before `n` at which `c` stands in `s`, or -1.
pub open spec fn last_index_of(s: Seq<char>, c: char, n: int) -> int
    decreases n,
{
    if n <= 0 || n > s.len() {
        -1
    } else if s[n - 1] == c {
        n - 1
    } else {
        last_index_of(s, c, n - 1)
    }
}

/// The last index at which `c` stands in `v`.
pub fn rfind_char(v: &Vec<char>, c: char) -> (r: Option<usize>)
    ensures
        match r {
            Some(i) => last_index_of(v@, c, v@.len() as int) == i && i < v@.len(),
            None => last_index_of(v@, c, v@.len() as int) == -1,
        },
{
    let mut n: usize = v.len();
    while n > 0
        invariant
            n <= v.len(),
            last_index_of(v@, c, v@.len() as int) == last_index_of(v@, c, n as int),
        decreases n,
    {
        if v[n - 1] == c {
            return Some(n - 1);
        }
        n -= 1;
    }
    None
}

/// Whether every character of `s` is a decimal digit.
pub open spec fn all_digits(s: Seq<char>) -> bool {
    forall|i: int| 0 <= i < s.len() ==> 48 <= (#[trigger] s[i]) as u32 <= 57
}

/// The number that the decimal digits `s[..n]` write.
pub open spec fn digits_value(s: Seq<char>, n: int) -> nat
    decreases n,
{
    if n <= 0 {
        0
    } else {
        digits_value(s, n - 1) * 10 + (s[n - 1] as u32 - 48) as nat
    }
}

pub proof fn lemma_digits_value_monotonic(s: Seq<char>, m: int, n: int)
    requires
        0 <= m <= n <= s.len(),
        all_digits(s),
    ensures
        digits_value(s, m) <= digits_value(s, n),
    decreases n - m,
{
    if m < n {
        lemma_digits_value_monotonic(s, m, n - 1);
    }
}

/// The number that `s` writes in decimal, where `s` is a run of digits, not
/// empty, whose value does not exceed `max`.
pub open spec fn parse_decimal(s: Seq<char>, max: nat) -> Option<nat> {
    if s.len() > 0 && all_digits(s) && digits_value(s, s.len() as int) <= max {
        Some(digits_value(s, s.len() as int))
    } else {
        None
    }
}

/// The number that `v` writes in decimal.
pub fn parse_u64(v: &Vec<char>, max: u64) -> (r: Option<u64>)
    ensures
        match r {
            Some(n) => parse_decimal(v@, max as nat) == Some(n as nat),
            None => parse_decimal(v@, max as nat).is_none(),
        },
{
    if v.len() == 0 {
        return None;
    }
    let mut acc: u64 = 0;
    let mut i: usize = 0;
    while i < v.len()
        invariant
            i <= v.len(),
            forall|j: int| 0 <= j < i ==> 48 <= (#[trigger] v@[j]) as u32 <= 57,
            acc == digits_value(v@, i as int),
            acc <= max,
        decreases v.len() - i,
    {
        let c: u32 = v[i] as u32;
        if c < 48 || c > 57 {
            return None;
        }
        let d: u64 = (c - 48) as u64;
        if d > max || acc > (max - d) / 10 {
            proof {
                if all_digits(v@) {
                    lemma_digits_value_monotonic(v@, i as int + 1, v@.len() as int);
                }
            }
            return None;
        }
        acc = acc * 10 + d;
        i += 1;
    }
    Some(acc)
}


/// The number that `s` writes as an unsigned integer: a run of digits, not
/// empty, which one `+` may precede, whose value does not exceed `max`.
pub open spec fn parse_unsigned(s: Seq<char>, max: nat) -> Option<nat> {
    if s.len() > 0 && s[0] == '+' {
        parse_decimal(s.subrange(1, s.len() as int), max)
    } else {
        parse_decimal(s, max)
    }
}

/// The unsigned integer that `v` writes.
pub fn parse_unsigned_u64(v: &Vec<char>, max: u64) -> (r: Option<u64>)
    ensures
        match r {
            Some(n) => parse_unsigned(v@, max as nat) == Some(n as nat),
            None => parse_unsigned(v@, max as nat).is_none(),
        },
{
    if v.len() > 0 && v[0] == '+' {
        let rest = slice_chars(v, 1, v.len());
        parse_u64(&rest, max)
    } else {
        parse_u64(v, max)
    }
}

} // verus!

//! Rendering of a source location: the line that holds a byte span, with a caret
//! marker under the span.

use crate::text::{decimal, decimal_chars, extend_chars, push_repeated, repeat_char};
use vstd::prelude::*;

verus! {

/// Number of bytes that `c` takes in UTF-8.
pub open spec fn utf8_len(c: char) -> nat {
    if (c as u32) < 0x80 {
        1
    } else if (c as u32) < 0x800 {
        2
    } else if (c as u32) < 0x10000 {
        3
    } else {
        4
    }
}

/// Index of the character at byte offset `b`: the number of characters that start
/// before `b` (all of them when `b` lies past the end).
pub open spec fn char_index(s: Seq<char>, b: int) -> nat
    decreases s.len(),
{
    if s.len() == 0 || b <= 0 {
        0
    } else {
        1 + char_index(s.subrange(1, s.len() as int), b - utf8_len(s[0]))
    }
}

/// Number of line breaks among the first `i` characters.
pub open spec fn newlines_before(s: Seq<char>, i: int) -> nat
    decreases i,
{
    if i <= 0 || s.len() == 0 {
        0
    } else if i > s.len() {
        newlines_before(s, s.len() as int)
    } else {
        newlines_before(s, i - 1) + if s[i - 1] == '\n' { 1nat } else { 0nat }
    }
}

/// Start of the line holding position `i`.
pub open spec fn line_start(s: Seq<char>, i: int) -> int
    decreases i,
{
    if i <= 0 {
        0
    } else if s[i - 1] == '\n' {
        i
    } else {
        line_start(s, i - 1)
    }
}

/// End of the line holding position `i` (the next line break, or the end).
pub open spec fn line_end(s: Seq<char>, i: int) -> int
    decreases s.len() - i,
{
    if i >= s.len() {
        s.len() as int
    } else if s[i] == '\n' {
        i
    } else {
        line_end(s, i + 1)
    }
}

/// The rendering of the byte span `offset .. offset + len` of `s`: a header with the
/// line and column, the line itself behind a gutter, and carets under the span.
pub open spec fn render_location(s: Seq<char>, offset: nat, len: nat) -> Seq<char> {
    let i = char_index(s, offset as int);
    let j = char_index(s, (offset + len) as int);
    let line_number = newlines_before(s, i as int) + 1;
    let start = line_start(s, i as int);
    let end = line_end(s, i as int);
    let column = i - start + 1;
    let marker = if len == 0 {
        1
    } else if j > i {
        j - i
    } else {
        1
    };
    let number = decimal(line_number as nat);
    "  --> line "@ + number + ", column "@ + decimal(column as nat) + "\n"@ + number + " | "@
        + s.subrange(start, end) + "\n"@ + repeat_char(' ', number.len()) + " | "@ + repeat_char(
        ' ',
        (column - 1) as nat,
    ) + repeat_char('^', marker as nat)
}

fn utf8_len_exec(c: char) -> (n: u128)
    ensures
        n == utf8_len(c),
{
    let code = c as u32;
    if code < 0x80 {
        1
    } else if code < 0x800 {
        2
    } else if code < 0x10000 {
        3
    } else {
        4
    }
}

/// The index of the character at byte offset `b` of `s`.
pub fn char_index_exec(s: &Vec<char>, b: u128) -> (k: usize)
    requires
        b <= 0x2_0000_0000_0000_0000,
    ensures
        k == char_index(s@, b as int),
        k <= s@.len(),
{
    let mut k: usize = 0;
    let mut rem: i128 = b as i128;
    assert(s@.subrange(0, s@.len() as int) =~= s@);
    while k < s.len() && rem > 0
        invariant
            k <= s@.len(),
            rem <= b,
            rem >= -4,
            char_index(s@, b as int) == k + char_index(s@.subrange(k as int, s@.len() as int), rem as int),
        decreases s@.len() - k,
    {
        let n = utf8_len_exec(s[k]);
        proof {
            let rest = s@.subrange(k as int, s@.len() as int);
            assert(rest.subrange(1, rest.len() as int) =~= s@.subrange(k + 1, s@.len() as int));
            assert(rest[0] == s@[k as int]);
        }
        rem = rem - n as i128;
        k = k + 1;
    }
    proof {
        let rest = s@.subrange(k as int, s@.len() as int);
        assert(char_index(rest, rem as int) == 0);
    }
    k
}

fn newlines_before_exec(s: &Vec<char>, i: usize) -> (n: usize)
    requires
        i <= s@.len(),
    ensures
        n == newlines_before(s@, i as int),
        n <= i,
{
    let mut n: usize = 0;
    let mut k: usize = 0;
    while k < i
        invariant
            k <= i <= s@.len(),
            n == newlines_before(s@, k as int),
            n <= k,
        decreases i - k,
    {
        if s[k] == '\n' {
            n = n + 1;
        }
        k = k + 1;
    }
    n
}

fn line_start_exec(s: &Vec<char>, i: usize) -> (r: usize)
    requires
        i <= s@.len(),
    ensures
        r == line_start(s@, i as int),
        r <= i,
{
    let mut k: usize = i;
    while k > 0 && s[k - 1] != '\n'
        invariant
            k <= i <= s@.len(),
            line_start(s@, i as int) == line_start(s@, k as int),
        decreases k,
    {
        k = k - 1;
    }
    k
}

fn line_end_exec(s: &Vec<char>, i: usize) -> (r: usize)
    requires
        i <= s@.len(),
    ensures
        r == line_end(s@, i as int),
        i <= r <= s@.len(),
{
    let mut k: usize = i;
    while k < s.len() && s[k] != '\n'
        invariant
            i <= k <= s@.len(),
            line_end(s@, i as int) == line_end(s@, k as int),
        decreases s@.len() - k,
    {
        k = k + 1;
    }
    k
}

/// Renders the location of the byte span `offset .. offset + len` within `source`.
pub fn render_source_span(source: &Vec<char>, offset: usize, len: usize) -> (text: Vec<char>)
    ensures
        text@ == render_location(source@, offset as nat, len as nat),
{
    let i = char_index_exec(source, offset as u128);
    let j = char_index_exec(source, offset as u128 + len as u128);
    let line_number: u128 = newlines_before_exec(source, i) as u128 + 1;
    let start = line_start_exec(source, i);
    let end = line_end_exec(source, i);
    let column: u128 = (i - start) as u128 + 1;
    let marker: usize = if len == 0 {
        1
    } else if j > i {
        j - i
    } else {
        1
    };
    let number = decimal_chars(line_number);
    let mut text: Vec<char> = Vec::new();
    crate::text::extend_str(&mut text, "  --> line ");
    extend_chars(&mut text, &number);
    crate::text::extend_str(&mut text, ", column ");
    let column_digits = decimal_chars(column);
    extend_chars(&mut text, &column_digits);
    crate::text::extend_str(&mut text, "\n");
    extend_chars(&mut text, &number);
    crate::text::extend_str(&mut text, " | ");
    let line = source_slice(source, start, end);
    extend_chars(&mut text, &line);
    crate::text::extend_str(&mut text, "\n");
    push_repeated(&mut text, ' ', number.len());
    crate::text::extend_str(&mut text, " | ");
    push_repeated(&mut text, ' ', i - start);
    push_repeated(&mut text, '^', marker);
    text
}

/// The characters of `s` from `start` to `end`.
pub fn source_slice(s: &Vec<char>, start: usize, end: usize) -> (r: Vec<char>)
    requires
        start <= end <= s@.len(),
    ensures
        r@ == s@.subrange(start as int, end as int),
{
    let mut r: Vec<char> = Vec::new();
    let mut k: usize = start;
    while k < end
        invariant
            start <= k <= end <= s@.len(),
            r@ == s@.subrange(start as int, k as int),
        decreases end - k,
    {
        r.push(s[k]);
        k = k + 1;
        assert(r@ =~= s@.subrange(start as int, k as int));
    }
    r
}

} // verus!

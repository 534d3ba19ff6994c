//! Reading what a server says in the headers of its response: numbers,
//! `Content-Range`, and header lines.

use vstd::prelude::*;
use crate::text::chars_of;

verus! {

/// Whether `c` is white space: a character with the Unicode property `White_Space`.
pub open spec fn is_space(c: char) -> bool {
    let u = c as u32;
    ||| 0x09 <= u <= 0x0D
    ||| u == 0x20
    ||| u == 0x85
    ||| u == 0xA0
    ||| u == 0x1680
    ||| 0x2000 <= u <= 0x200A
    ||| u == 0x2028
    ||| u == 0x2029
    ||| u == 0x202F
    ||| u == 0x205F
    ||| u == 0x3000
}

/// Exec counterpart of [`is_space`].
pub fn space(c: char) -> (r: bool)
    ensures
        r == is_space(c),
{
    let u: u32 = c as u32;
    (0x09 <= u && u <= 0x0D) || u == 0x20 || u == 0x85 || u == 0xA0 || u == 0x1680 || (0x2000 <= u
        && u <= 0x200A) || u == 0x2028 || u == 0x2029 || u == 0x202F || u == 0x205F || u == 0x3000
}

/// Whether `c` is one of the ten decimal digits.
pub open spec fn is_digit(c: char) -> bool {
    0x30 <= c as u32 <= 0x39
}

/// The number a decimal digit stands for; zero for any other character.
pub open spec fn digit_value(c: char) -> nat {
    if is_digit(c) {
        (c as u32 - 0x30) as nat
    } else {
        0
    }
}

/// The number that a run of decimal digits stands for.
pub open spec fn digits_value(s: Seq<char>) -> nat
    decreases s.len(),
{
    if s.len() == 0 {
        0
    } else {
        digits_value(s.drop_last()) * 10 + digit_value(s.last())
    }
}

/// Whether every character of `s` is a decimal digit.
pub open spec fn all_digits(s: Seq<char>) -> bool {
    forall|i: int| 0 <= i < s.len() ==> is_digit(#[trigger] s[i])
}

/// The unsigned 64-bit number that `s` spells: an optional `+`, then one
/// or more decimal digits, whose value fits. Anything else spells none.
pub open spec fn spec_parse_u64(s: Seq<char>) -> Option<u64> {
    let body = if s.len() > 0 && s[0] == '+' {
        s.skip(1)
    } else {
        s
    };
    if body.len() > 0 && all_digits(body) && digits_value(body) <= u64::MAX {
        Some(digits_value(body) as u64)
    } else {
        None
    }
}

/// A run of digits is worth at least as much as any front part of it.
pub proof fn lemma_digits_grow(s: Seq<char>, k: int)
    requires
        0 <= k <= s.len(),
    ensures
        digits_value(s.take(k)) <= digits_value(s),
    decreases s.len(),
{
    if k == s.len() {
        assert(s.take(k) =~= s);
    } else {
        assert(s.drop_last().take(k) =~= s.take(k));
        lemma_digits_grow(s.drop_last(), k);
    }
}

/// Reads an unsigned number: see [`spec_parse_u64`].
pub fn parse_u64(text: &Vec<char>) -> (r: Option<u64>)
    ensures
        r == spec_parse_u64(text@),
{
    let n: usize = text.len();
    let first: usize = if n > 0 && text[0] == '+' {
        1
    } else {
        0
    };
    let ghost body = text@.skip(first as int);
    assert(body =~= if text@.len() > 0 && text@[0] == '+' {
        text@.skip(1)
    } else {
        text@
    });
    if first == n {
        return None;
    }
    let mut acc: u64 = 0;
    let mut i: usize = first;
    while i < n
        invariant
            first <= i <= n == text@.len(),
            first < n,
            body == text@.skip(first as int),
            body == if text@.len() > 0 && text@[0] == '+' {
                text@.skip(1)
            } else {
                text@
            },
            acc as nat == digits_value(body.take(i - first)),
            forall|j: int| 0 <= j < i - first ==> is_digit(#[trigger] body[j]),
        decreases n - i,
    {
        let c: char = text[i];
        let u: u32 = c as u32;
        if u < 0x30 || u > 0x39 {
            assert(!is_digit(body[i - first]));
            return None;
        }
        let d: u64 = (u - 0x30) as u64;
        proof {
            let next = body.take(i - first + 1);
            assert(next.drop_last() =~= body.take(i - first));
            assert(next.last() == c);
            assert(digits_value(next) == acc * 10 + d);
            lemma_digits_grow(body, i - first + 1);
        }
        if acc > (u64::MAX - d) / 10 {
            return None;
        }
        acc = acc * 10 + d;
        i = i + 1;
    }
    assert(body.take(n - first) =~= body);
    Some(acc)
}

/// Reads the value of a `Content-Length` header: see [`spec_parse_u64`].
pub fn parse_content_length(value: &str) -> (r: Option<u64>)
    ensures
        r == spec_parse_u64(value@),
{
    let text = chars_of(value);
    parse_u64(&text)
}

/// The first position at or after `from` that holds no white space; the
/// length where there is none.
pub open spec fn skip_spaces(s: Seq<char>, from: int) -> int
    decreases s.len() - from,
{
    if 0 <= from < s.len() && is_space(s[from]) {
        skip_spaces(s, from + 1)
    } else {
        from
    }
}

/// The first position at or after `from` that holds white space; the
/// length where there is none.
pub open spec fn skip_word(s: Seq<char>, from: int) -> int
    decreases s.len() - from,
{
    if 0 <= from < s.len() && !is_space(s[from]) {
        skip_word(s, from + 1)
    } else {
        from
    }
}

/// The first position at or after `from` that holds `stop`; the length
/// where there is none.
pub open spec fn find(s: Seq<char>, from: int, stop: char) -> int
    decreases s.len() - from,
{
    if 0 <= from < s.len() && s[from] != stop {
        find(s, from + 1, stop)
    } else {
        from
    }
}

/// Exec counterpart of [`skip_spaces`].
pub fn after_spaces(text: &Vec<char>, from: usize) -> (r: usize)
    requires
        from <= text@.len(),
    ensures
        r == skip_spaces(text@, from as int),
        from <= r <= text@.len(),
{
    let mut i: usize = from;
    while i < text.len() && space(text[i])
        invariant
            from <= i <= text@.len(),
            skip_spaces(text@, from as int) == skip_spaces(text@, i as int),
        decreases text@.len() - i,
    {
        i = i + 1;
    }
    i
}

/// Exec counterpart of [`skip_word`].
pub fn after_word(text: &Vec<char>, from: usize) -> (r: usize)
    requires
        from <= text@.len(),
    ensures
        r == skip_word(text@, from as int),
        from <= r <= text@.len(),
{
    let mut i: usize = from;
    while i < text.len() && !space(text[i])
        invariant
            from <= i <= text@.len(),
            skip_word(text@, from as int) == skip_word(text@, i as int),
        decreases text@.len() - i,
    {
        i = i + 1;
    }
    i
}

/// Exec counterpart of [`find`].
pub fn position_of(text: &Vec<char>, from: usize, stop: char) -> (r: usize)
    requires
        from <= text@.len(),
    ensures
        r == find(text@, from as int, stop),
        from <= r <= text@.len(),
{
    let mut i: usize = from;
    while i < text.len() && text[i] != stop
        invariant
            from <= i <= text@.len(),
            find(text@, from as int, stop) == find(text@, i as int, stop),
        decreases text@.len() - i,
    {
        i = i + 1;
    }
    i
}

/// The characters of `text` from `from` up to, not including, `to`.
pub fn part(text: &Vec<char>, from: usize, to: usize) -> (r: Vec<char>)
    requires
        from <= to <= text@.len(),
    ensures
        r@ == text@.subrange(from as int, to as int),
{
    let mut r: Vec<char> = Vec::new();
    let mut i: usize = from;
    while i < to
        invariant
            from <= i <= to <= text@.len(),
            r@ == text@.subrange(from as int, i as int),
        decreases to - i,
    {
        r.push(text[i]);
        assert(r@ =~= text@.subrange(from as int, i + 1));
        i = i + 1;
    }
    r
}

/// The word `bytes`, the unit of every range this library asks for.
pub open spec fn bytes_unit() -> Seq<char> {
    seq!['b', 'y', 't', 'e', 's']
}

/// The first and last offset that a `Content-Range` header names.
///
/// The header is cut into words at white space. The first word must be
/// `bytes`. The second, up to its first `/`, is the range; its part
/// before the first `-` spells the first offset, and its part from there
/// up to the next `-`, or to its end, spells the last. A header of
/// another shape names none.
pub open spec fn spec_parse_content_range(s: Seq<char>) -> Option<(u64, u64)> {
    let a0 = skip_spaces(s, 0);
    let a1 = skip_word(s, a0);
    let b0 = skip_spaces(s, a1);
    let b1 = skip_word(s, b0);
    if b0 >= s.len() || s.subrange(a0, a1) != bytes_unit() {
        None
    } else {
        let word = s.subrange(b0, b1);
        let range = word.take(find(word, 0, '/'));
        let dash = find(range, 0, '-');
        if dash >= range.len() {
            None
        } else {
            let second = find(range, dash + 1, '-');
            match (
                spec_parse_u64(range.take(dash)),
                spec_parse_u64(range.subrange(dash + 1, second)),
            ) {
                (Some(first), Some(last)) => Some((first, last)),
                _ => None,
            }
        }
    }
}

/// Reads a `Content-Range` header: see [`spec_parse_content_range`].
pub fn parse_content_range(header: &str) -> (r: Option<(u64, u64)>)
    ensures
        r == spec_parse_content_range(header@),
{
    let text = chars_of(header);
    parse_content_range_chars(&text)
}

/// The end of `s` without the white space that trails before `to`.
pub open spec fn skip_back(s: Seq<char>, to: int) -> int
    decreases to,
{
    if 0 < to <= s.len() && is_space(s[to - 1]) {
        skip_back(s, to - 1)
    } else {
        to
    }
}

/// `s` without the white space at its two ends.
pub open spec fn trimmed(s: Seq<char>) -> Seq<char> {
    let from = skip_spaces(s, 0);
    let to = skip_back(s, s.len() as int);
    if from >= to {
        Seq::empty()
    } else {
        s.subrange(from, to)
    }
}

/// The small letter of a capital ASCII letter; any other character as it is.
pub open spec fn lower(c: char) -> char {
    if 0x41 <= c as u32 <= 0x5A {
        ((c as u32 + 32) as u8) as char
    } else {
        c
    }
}

/// `s` with every capital ASCII letter made small.
pub open spec fn lowered(s: Seq<char>) -> Seq<char> {
    Seq::new(s.len(), |i: int| lower(s[i]))
}

/// The name and the value of a header line: the line is trimmed and cut
/// at its first colon; the name is what stands before it, trimmed and in
/// small letters, the value what stands after it, trimmed. A line
/// without a colon is no header.
pub open spec fn spec_split_header_line(s: Seq<char>) -> Option<(Seq<char>, Seq<char>)> {
    let line = trimmed(s);
    let colon = find(line, 0, ':');
    if colon >= line.len() {
        None
    } else {
        Some((lowered(trimmed(line.take(colon))), trimmed(line.skip(colon + 1))))
    }
}

/// Exec counterpart of [`skip_back`].
pub fn before_spaces(text: &Vec<char>, to: usize) -> (r: usize)
    requires
        to <= text@.len(),
    ensures
        r == skip_back(text@, to as int),
        r <= to,
{
    let mut i: usize = to;
    while i > 0 && space(text[i - 1])
        invariant
            i <= to <= text@.len(),
            skip_back(text@, to as int) == skip_back(text@, i as int),
        decreases i,
    {
        i = i - 1;
    }
    i
}

/// Exec counterpart of [`trimmed`].
pub fn trim(text: &Vec<char>) -> (r: Vec<char>)
    ensures
        r@ == trimmed(text@),
{
    let from: usize = after_spaces(text, 0);
    let to: usize = before_spaces(text, text.len());
    if from >= to {
        Vec::new()
    } else {
        part(text, from, to)
    }
}

/// Exec counterpart of [`lowered`].
pub fn to_lower(text: &Vec<char>) -> (r: Vec<char>)
    ensures
        r@ == lowered(text@),
{
    let mut r: Vec<char> = Vec::new();
    let mut i: usize = 0;
    while i < text.len()
        invariant
            i <= text@.len(),
            r@.len() == i,
            forall|j: int| 0 <= j < i ==> r@[j] == lower(text@[j]),
        decreases text@.len() - i,
    {
        let c: char = text[i];
        let u: u32 = c as u32;
        if 0x41 <= u && u <= 0x5A {
            r.push(((u + 32) as u8) as char);
        } else {
            r.push(c);
        }
        i = i + 1;
    }
    assert(r@ =~= lowered(text@));
    r
}

/// Splits a header line into its name and value: see [`spec_split_header_line`].
pub fn split_header_line(line: &str) -> (r: Option<(Vec<char>, Vec<char>)>)
    ensures
        match r {
            Some((name, value)) => spec_split_header_line(line@) == Some((name@, value@)),
            None => spec_split_header_line(line@) is None,
        },
{
    let raw = chars_of(line);
    let text = trim(&raw);
    let colon: usize = position_of(&text, 0, ':');
    if colon >= text.len() {
        return None;
    }
    let name_part = part(&text, 0, colon);
    let value_part = part(&text, colon + 1, text.len());
    let name = to_lower(&trim(&name_part));
    let value = trim(&value_part);
    Some((name, value))
}

/// Reads the value of a `Content-Range` header that was taken apart
/// into characters: see [`spec_parse_content_range`].
pub fn parse_content_range_chars(text: &Vec<char>) -> (r: Option<(u64, u64)>)
    ensures
        r == spec_parse_content_range(text@),
{
    let a0: usize = after_spaces(text, 0);
    let a1: usize = after_word(text, a0);
    let b0: usize = after_spaces(text, a1);
    let b1: usize = after_word(text, b0);
    if b0 >= text.len() {
        return None;
    }
    let unit = part(text, a0, a1);
    let expected: Vec<char> = vec!['b', 'y', 't', 'e', 's'];
    assert(expected@ =~= bytes_unit());
    if !crate::text::same_text(&unit, &expected) {
        return None;
    }
    let word = part(text, b0, b1);
    let slash: usize = position_of(&word, 0, '/');
    let range = part(&word, 0, slash);
    let dash: usize = position_of(&range, 0, '-');
    if dash >= range.len() {
        return None;
    }
    let second: usize = position_of(&range, dash + 1, '-');
    let first_text = part(&range, 0, dash);
    let last_text = part(&range, dash + 1, second);
    match parse_u64(&first_text) {
        None => None,
        Some(first) => match parse_u64(&last_text) {
            None => None,
            Some(last) => Some((first, last)),
        },
    }
}

} // verus!

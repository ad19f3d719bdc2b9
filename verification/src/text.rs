//! Text as sequences of characters.
//!
//! The passes over module text search, cut and join by character. This
//! module holds what they share: the conversions from and to strings, the
//! search for a pattern, replacement, trimming and the split into lines, each
//! with the function on `Seq<char>` that says what it computes.

use vstd::prelude::*;
use vstd::slice::slice_subrange;
use vstd::utf8::{char_is_scalar, encode_scalar, encode_utf8};

verus! {

/// The characters of `s`.
pub fn chars_of(s: &str) -> (out: Vec<char>)
    ensures
        out@ == s@,
{
    let mut out: Vec<char> = Vec::new();
    for c in it: s.chars()
        invariant
            it.seq() == s@,
            out@ == it.seq().take(it.index() as int),
    {
        out.push(c);
        assert(it.seq().take(it.index() + 1) =~= it.seq().take(it.index() as int).push(c));
    }
    assert(s@.take(s@.len() as int) =~= s@);
    out
}

/// Appends one character to a string, as `String::push` does: the text
/// afterwards is the text before with `c` at its end.
#[verifier::external_body]
fn push_char(text: &mut String, c: char)
    ensures
        final(text)@ == old(text)@.push(c),
{
    text.push(c);
}

/// The string that holds `chars`.
pub fn string_of(chars: &[char]) -> (out: String)
    ensures
        out@ == chars@,
{
    let mut out = String::new();
    let mut i: usize = 0;
    while i < chars.len()
        invariant
            i <= chars.len(),
            out@ == chars@.take(i as int),
        decreases chars.len() - i,
    {
        push_char(&mut out, chars[i]);
        assert(chars@.take(i + 1) =~= chars@.take(i as int).push(chars@[i as int]));
        i += 1;
    }
    assert(chars@.take(i as int) =~= chars@);
    out
}

/// Appends the characters of `more` to `text`.
pub fn append(text: &mut Vec<char>, more: &[char])
    ensures
        final(text)@ == old(text)@ + more@,
{
    let mut i: usize = 0;
    while i < more.len()
        invariant
            i <= more.len(),
            text@ == old(text)@ + more@.take(i as int),
        decreases more.len() - i,
    {
        text.push(more[i]);
        assert(more@.take(i + 1) =~= more@.take(i as int).push(more@[i as int]));
        assert(text@ =~= old(text)@ + more@.take(i + 1));
        i += 1;
    }
    assert(more@.take(i as int) =~= more@);
}

/// Appends the characters of the string `more` to `text`.
pub fn append_str(text: &mut Vec<char>, more: &str)
    ensures
        final(text)@ == old(text)@ + more@,
{
    let chars = chars_of(more);
    append(text, chars.as_slice());
}

/// Whether `c` is white space: a character with the Unicode property
/// `White_Space`.
pub open spec fn is_whitespace(c: char) -> bool {
    let u = c as u32;
    ||| 0x09 <= u <= 0x0D
    ||| u == 0x20
    ||| u == 0x85
    ||| u == 0xA0
    ||| u == 0x1680
    ||| 0x2000 <= u <= 0x200A
    ||| u == 0x2028
    ||| u == 0x2029
    ||| u == 0x202F
    ||| u == 0x205F
    ||| u == 0x3000
}

/// Tells whether `c` is white space.
pub fn char_is_whitespace(c: char) -> (r: bool)
    ensures
        r == is_whitespace(c),
{
    let u: u32 = c as u32;
    (0x09 <= u && u <= 0x0D) || u == 0x20 || u == 0x85 || u == 0xA0 || u == 0x1680 || (0x2000 <= u
        && u <= 0x200A) || u == 0x2028 || u == 0x2029 || u == 0x202F || u == 0x205F || u
        == 0x3000
}

/// Whether `needle` stands in `hay` at index `at`.
pub open spec fn matches_at(hay: Seq<char>, needle: Seq<char>, at: int) -> bool {
    &&& 0 <= at
    &&& at + needle.len() <= hay.len()
    &&& hay.subrange(at, at + needle.len()) == needle
}

/// The least index from `from` on at which `needle` stands in `hay`.
pub open spec fn first_match_from(hay: Seq<char>, needle: Seq<char>, from: int) -> Option<int>
    decreases hay.len() - from + 1,
{
    if from < 0 || from + needle.len() > hay.len() {
        None
    } else if matches_at(hay, needle, from) {
        Some(from)
    } else {
        first_match_from(hay, needle, from + 1)
    }
}

/// The least index at which `needle` stands in `hay`.
pub open spec fn first_match(hay: Seq<char>, needle: Seq<char>) -> Option<int> {
    first_match_from(hay, needle, 0)
}

/// Whether `needle` stands somewhere in `hay`.
pub open spec fn occurs_in(needle: Seq<char>, hay: Seq<char>) -> bool {
    first_match(hay, needle) is Some
}

/// Whether `text` begins with `prefix`.
pub open spec fn has_prefix(text: Seq<char>, prefix: Seq<char>) -> bool {
    matches_at(text, prefix, 0)
}

/// An index as a mathematical integer.
pub open spec fn index_of(found: Option<usize>) -> Option<int> {
    match found {
        Some(i) => Some(i as int),
        None => None,
    }
}

/// `first_match_from` gives the least match from `from` on, and gives one
/// wherever there is one.
pub proof fn lemma_first_match_from(hay: Seq<char>, needle: Seq<char>, from: int)
    requires
        0 <= from,
    ensures
        match first_match_from(hay, needle, from) {
            Some(i) => {
                &&& from <= i
                &&& matches_at(hay, needle, i)
                &&& forall|j: int| from <= j < i ==> !matches_at(hay, needle, j)
            },
            None => forall|j: int| from <= j ==> !matches_at(hay, needle, j),
        },
    decreases hay.len() - from + 1,
{
    if from + needle.len() <= hay.len() && !matches_at(hay, needle, from) {
        lemma_first_match_from(hay, needle, from + 1);
    }
}

/// Tells whether `needle` stands in `hay` at index `at`.
pub fn is_match_at(hay: &[char], needle: &[char], at: usize) -> (r: bool)
    ensures
        r == matches_at(hay@, needle@, at as int),
{
    if needle.len() > hay.len() || at > hay.len() - needle.len() {
        return false;
    }
    let mut i: usize = 0;
    while i < needle.len()
        invariant
            i <= needle.len(),
            at + needle.len() <= hay.len(),
            forall|k: int| 0 <= k < i ==> hay@[at + k] == needle@[k],
        decreases needle.len() - i,
    {
        if hay[at + i] != needle[i] {
            assert(hay@.subrange(at as int, at + needle@.len())[i as int] != needle@[i as int]);
            return false;
        }
        i += 1;
    }
    assert(hay@.subrange(at as int, at + needle@.len()) =~= needle@);
    true
}

/// Finds the least index from `from` on at which `needle` stands in `hay`.
pub fn find_from(hay: &[char], needle: &[char], from: usize) -> (r: Option<usize>)
    ensures
        index_of(r) == first_match_from(hay@, needle@, from as int),
{
    let mut at: usize = from;
    while needle.len() <= hay.len() && at <= hay.len() - needle.len()
        invariant
            from <= at,
            first_match_from(hay@, needle@, from as int) == first_match_from(
                hay@,
                needle@,
                at as int,
            ),
        decreases hay.len() - at,
    {
        if is_match_at(hay, needle, at) {
            return Some(at);
        }
        assert(needle@.len() > 0) by {
            if needle@.len() == 0 {
                assert(hay@.subrange(at as int, at as int) =~= needle@);
            }
        }
        at += 1;
    }
    None
}

/// Finds the least index at which `needle` stands in `hay`.
pub fn find(hay: &[char], needle: &[char]) -> (r: Option<usize>)
    ensures
        index_of(r) == first_match(hay@, needle@),
{
    find_from(hay, needle, 0)
}

/// Tells whether `needle` stands somewhere in `hay`.
pub fn contains(hay: &[char], needle: &[char]) -> (r: bool)
    ensures
        r == occurs_in(needle@, hay@),
{
    find(hay, needle).is_some()
}

/// Tells whether `text` begins with `prefix`.
pub fn starts_with(text: &[char], prefix: &[char]) -> (r: bool)
    ensures
        r == has_prefix(text@, prefix@),
{
    is_match_at(text, prefix, 0)
}

/// The index of the first character from `from` on that is not white
/// space, or the length of `text` where there is none.
pub open spec fn skip_space(text: Seq<char>, from: int) -> int
    decreases text.len() - from,
{
    if 0 <= from < text.len() && is_whitespace(text[from]) {
        skip_space(text, from + 1)
    } else {
        from
    }
}

/// The index just after the last character before `to` that is not white
/// space, or `floor` where there is none from `floor` on.
pub open spec fn drop_space(text: Seq<char>, floor: int, to: int) -> int
    decreases to,
{
    if 0 <= floor < to <= text.len() && is_whitespace(text[to - 1]) {
        drop_space(text, floor, to - 1)
    } else {
        to
    }
}

/// `text` without the white space at its two ends.
pub open spec fn trimmed(text: Seq<char>) -> Seq<char> {
    text.subrange(skip_space(text, 0), drop_space(text, skip_space(text, 0), text.len() as int))
}

/// Cuts the white space from the two ends of `text`.
pub fn trim(text: &[char]) -> (out: &[char])
    ensures
        out@ == trimmed(text@),
{
    let mut start: usize = 0;
    while start < text.len() && char_is_whitespace(text[start])
        invariant
            start <= text.len(),
            skip_space(text@, 0) == skip_space(text@, start as int),
        decreases text.len() - start,
    {
        start += 1;
    }
    let mut end: usize = text.len();
    while start < end && char_is_whitespace(text[end - 1])
        invariant
            start <= end <= text.len(),
            drop_space(text@, start as int, text@.len() as int) == drop_space(
                text@,
                start as int,
                end as int,
            ),
        decreases end,
    {
        end -= 1;
    }
    slice_subrange(text, start, end)
}

/// The index of the first line feed from `from` on, or the length of `text`
/// where there is none.
pub open spec fn line_end(text: Seq<char>, from: int) -> int
    decreases text.len() - from,
{
    if 0 <= from < text.len() && text[from] != '\n' {
        line_end(text, from + 1)
    } else {
        from
    }
}

/// `line` without a carriage return at its end.
pub open spec fn without_return(line: Seq<char>) -> Seq<char> {
    if line.len() > 0 && line.last() == '\r' {
        line.drop_last()
    } else {
        line
    }
}

/// The lines of `text` from index `from` on. A line ends at a line feed, which
/// is not part of it, nor is a carriage return just before the line feed. What
/// follows the last line feed is a line too, unless it is empty.
pub open spec fn lines_from(text: Seq<char>, from: int) -> Seq<Seq<char>>
    decreases text.len() - from,
    via lines_from_decreases
{
    if from < 0 || from >= text.len() {
        Seq::empty()
    } else {
        let end = line_end(text, from);
        if end >= text.len() {
            seq![text.subrange(from, text.len() as int)]
        } else {
            seq![without_return(text.subrange(from, end))] + lines_from(text, end + 1)
        }
    }
}

#[via_fn]
proof fn lines_from_decreases(text: Seq<char>, from: int) {
    if 0 <= from < text.len() {
        lemma_line_end(text, from);
    }
}

/// A line ends at or after its start; at its end stands a line feed, or the
/// text ends; and no line feed stands before.
pub proof fn lemma_line_end(text: Seq<char>, from: int)
    requires
        0 <= from <= text.len(),
    ensures
        from <= line_end(text, from) <= text.len(),
        line_end(text, from) < text.len() ==> text[line_end(text, from)] == '\n',
        forall|i: int| from <= i < line_end(text, from) ==> text[i] != '\n',
    decreases text.len() - from,
{
    if from < text.len() && text[from] != '\n' {
        lemma_line_end(text, from + 1);
    }
}

/// The lines of `text`.
pub open spec fn lines_of(text: Seq<char>) -> Seq<Seq<char>> {
    lines_from(text, 0)
}

/// The character sequences that `pieces` hold.
pub open spec fn texts(pieces: Seq<Vec<char>>) -> Seq<Seq<char>> {
    pieces.map_values(|piece: Vec<char>| piece@)
}

/// Copies the characters of `text` from `from` up to `to`.
pub fn copy_range(text: &[char], from: usize, to: usize) -> (out: Vec<char>)
    requires
        from <= to <= text@.len(),
    ensures
        out@ == text@.subrange(from as int, to as int),
{
    let mut out: Vec<char> = Vec::new();
    append(&mut out, slice_subrange(text, from, to));
    assert(Seq::<char>::empty() + text@.subrange(from as int, to as int) =~= text@.subrange(
        from as int,
        to as int,
    ));
    out
}

/// Splits `text` into its lines.
pub fn split_lines(text: &[char]) -> (out: Vec<Vec<char>>)
    ensures
        texts(out@) == lines_of(text@),
{
    let mut out: Vec<Vec<char>> = Vec::new();
    let mut from: usize = 0;
    assert(texts(out@) =~= Seq::empty());
    while from < text.len()
        invariant
            from <= text.len(),
            lines_of(text@) == texts(out@) + lines_from(text@, from as int),
        decreases text.len() - from,
    {
        let mut end: usize = from;
        while end < text.len() && text[end] != '\n'
            invariant
                from <= end <= text.len(),
                line_end(text@, from as int) == line_end(text@, end as int),
            decreases text.len() - end,
        {
            end += 1;
        }
        let ghost before = texts(out@);
        if end >= text.len() {
            let line = copy_range(text, from, text.len());
            out.push(line);
            assert(texts(out@) =~= before.push(line@));
            assert(before + seq![line@] =~= texts(out@) + Seq::<Seq<char>>::empty());
            from = text.len();
        } else {
            let stop: usize = if end > from && text[end - 1] == '\r' {
                end - 1
            } else {
                end
            };
            let line = copy_range(text, from, stop);
            assert(line@ =~= without_return(text@.subrange(from as int, end as int)));
            out.push(line);
            assert(texts(out@) =~= before.push(line@));
            assert(before + (seq![line@] + lines_from(text@, end + 1)) =~= texts(out@)
                + lines_from(text@, end + 1));
            from = end + 1;
        }
    }
    assert(texts(out@) + Seq::<Seq<char>>::empty() =~= texts(out@));
    out
}

/// `hay` from index `pos` on, with every occurrence of `from` replaced by
/// `to`: the occurrences are taken from left to right, each search beginning
/// where the last occurrence ended. An empty `from` occurs nowhere.
pub open spec fn replaced_from(hay: Seq<char>, from: Seq<char>, to: Seq<char>, pos: int) -> Seq<
    char,
>
    decreases hay.len() - pos,
    via replaced_from_decreases
{
    if from.len() == 0 || pos < 0 || pos > hay.len() {
        hay.subrange(pos, hay.len() as int)
    } else {
        match first_match_from(hay, from, pos) {
            None => hay.subrange(pos, hay.len() as int),
            Some(i) => hay.subrange(pos, i) + to + replaced_from(hay, from, to, i + from.len()),
        }
    }
}

#[via_fn]
proof fn replaced_from_decreases(hay: Seq<char>, from: Seq<char>, to: Seq<char>, pos: int) {
    if 0 <= pos {
        lemma_first_match_from(hay, from, pos);
    }
}

/// `hay` with every occurrence of `from` replaced by `to`.
pub open spec fn replaced(hay: Seq<char>, from: Seq<char>, to: Seq<char>) -> Seq<char> {
    if from.len() == 0 {
        hay
    } else {
        replaced_from(hay, from, to, 0)
    }
}

/// Replaces every occurrence of `from` in `hay` by `to`.
pub fn replace(hay: &[char], from: &[char], to: &[char]) -> (out: Vec<char>)
    ensures
        out@ == replaced(hay@, from@, to@),
{
    let mut out: Vec<char> = Vec::new();
    if from.len() == 0 {
        append(&mut out, hay);
        assert(Seq::<char>::empty() + hay@ =~= hay@);
        return out;
    }
    let mut pos: usize = 0;
    loop
        invariant_except_break
            pos <= hay.len(),
            from@.len() > 0,
            replaced(hay@, from@, to@) == out@ + replaced_from(hay@, from@, to@, pos as int),
        ensures
            out@ == replaced(hay@, from@, to@),
        decreases hay.len() - pos,
    {
        proof {
            lemma_first_match_from(hay@, from@, pos as int);
        }
        let ghost before = out@;
        match find_from(hay, from, pos) {
            None => {
                append(&mut out, slice_subrange(hay, pos, hay.len()));
                break ;
            },
            Some(i) => {
                append(&mut out, slice_subrange(hay, pos, i));
                append(&mut out, to);
                assert(before + (hay@.subrange(pos as int, i as int) + to@ + replaced_from(
                    hay@,
                    from@,
                    to@,
                    i + from@.len(),
                )) =~= out@ + replaced_from(hay@, from@, to@, i + from@.len()));
                pos = i + from.len();
            },
        }
    }
    out
}

/// The number of times that `c` stands among the first `n` characters of
/// `text`.
pub open spec fn count_of(text: Seq<char>, c: char, n: int) -> nat
    decreases n,
{
    if n <= 0 {
        0
    } else if text[n - 1] == c {
        count_of(text, c, n - 1) + 1
    } else {
        count_of(text, c, n - 1)
    }
}

/// Tells whether `c` stands in `text` at least `wanted` times.
pub fn has_at_least(text: &[char], c: char, wanted: usize) -> (r: bool)
    ensures
        r == (count_of(text@, c, text@.len() as int) >= wanted),
{
    let mut seen: usize = 0;
    let mut i: usize = 0;
    while i < text.len()
        invariant
            i <= text.len(),
            seen <= i,
            seen == count_of(text@, c, i as int),
        decreases text.len() - i,
    {
        if text[i] == c {
            seen += 1;
        }
        i += 1;
    }
    seen >= wanted
}

/// The index of the first white-space character from `from` on.
pub open spec fn first_space(text: Seq<char>, from: int) -> Option<int>
    decreases text.len() - from,
{
    if from < 0 || from >= text.len() {
        None
    } else if is_whitespace(text[from]) {
        Some(from)
    } else {
        first_space(text, from + 1)
    }
}

/// The index of the first character from `from` on that ends a name: white
/// space or a closing parenthesis.
pub open spec fn first_name_end(text: Seq<char>, from: int) -> Option<int>
    decreases text.len() - from,
{
    if from < 0 || from >= text.len() {
        None
    } else if is_whitespace(text[from]) || text[from] == ')' {
        Some(from)
    } else {
        first_name_end(text, from + 1)
    }
}

/// Where `first_space` and `first_name_end` find something, it lies from
/// `from` on and inside the text.
pub proof fn lemma_first_stop(text: Seq<char>, from: int)
    requires
        0 <= from,
    ensures
        first_space(text, from) is Some ==> from <= first_space(text, from)->Some_0 < text.len(),
        first_name_end(text, from) is Some ==> from <= first_name_end(text, from)->Some_0
            < text.len(),
    decreases text.len() - from,
{
    if from < text.len() {
        lemma_first_stop(text, from + 1);
    }
}

/// Finds the first white-space character of `text` from `from` on.
pub fn find_space(text: &[char], from: usize) -> (r: Option<usize>)
    ensures
        index_of(r) == first_space(text@, from as int),
{
    let mut i: usize = from;
    while i < text.len()
        invariant
            from <= i,
            first_space(text@, from as int) == first_space(text@, i as int),
        decreases text.len() - i,
    {
        if char_is_whitespace(text[i]) {
            return Some(i);
        }
        i += 1;
    }
    None
}

/// Finds the first character of `text` from `from` on that ends a name.
pub fn find_name_end(text: &[char], from: usize) -> (r: Option<usize>)
    ensures
        index_of(r) == first_name_end(text@, from as int),
{
    let mut i: usize = from;
    while i < text.len()
        invariant
            from <= i,
            first_name_end(text@, from as int) == first_name_end(text@, i as int),
        decreases text.len() - i,
    {
        if char_is_whitespace(text[i]) || text[i] == ')' {
            return Some(i);
        }
        i += 1;
    }
    None
}

/// The decimal digit for `d`.
pub open spec fn digit(d: int) -> char {
    (0x30 + d) as u8 as char
}

/// `n` in decimal, without leading zeros.
pub open spec fn decimal_digits(n: nat) -> Seq<char>
    decreases n,
{
    if n < 10 {
        seq![digit(n as int)]
    } else {
        decimal_digits(n / 10).push(digit(n as int % 10))
    }
}

/// Writes `n` in decimal.
pub fn decimal(n: u128) -> (out: Vec<char>)
    ensures
        out@ == decimal_digits(n as nat),
    decreases n,
{
    if n < 10 {
        let mut out: Vec<char> = Vec::new();
        out.push((0x30 + n as u8) as char);
        assert(out@ =~= seq![digit(n as int)]);
        out
    } else {
        let mut out = decimal(n / 10);
        out.push((0x30 + (n % 10) as u8) as char);
        out
    }
}

/// Counts the bytes that `text` takes in UTF-8.
pub fn utf8_len(text: &[char]) -> (n: u128)
    ensures
        n == encode_utf8(text@).len(),
{
    let mut n: u128 = 0;
    let mut i: usize = 0;
    assert(text@.skip(0) =~= text@);
    while i < text.len()
        invariant
            i <= text.len(),
            n <= 4 * i,
            encode_utf8(text@).len() == n + encode_utf8(text@.skip(i as int)).len(),
        decreases text.len() - i,
    {
        let u: u32 = text[i] as u32;
        proof {
            let rest = text@.skip(i as int);
            assert(rest.drop_first() =~= text@.skip(i + 1));
            assert(rest[0] == text@[i as int]);
            char_is_scalar(text@[i as int]);
            assert(encode_utf8(rest) == encode_scalar(rest[0] as u32) + encode_utf8(
                rest.drop_first(),
            ));
        }
        if u < 0x80 {
            n += 1;
        } else if u < 0x800 {
            n += 2;
        } else if u < 0x10000 {
            n += 3;
        } else {
            n += 4;
        }
        i += 1;
    }
    n
}

/// The upper-case hexadecimal digit for `d`.
pub open spec fn hex_digit(d: int) -> char {
    if d < 10 {
        (0x30 + d) as u8 as char
    } else {
        (0x41 + d - 10) as u8 as char
    }
}

/// `b` as a hexadecimal literal of two upper-case digits: `0x` and the
/// digits.
pub open spec fn hex_literal(b: u8) -> Seq<char> {
    seq!['0', 'x', hex_digit(b as int / 16), hex_digit(b as int % 16)]
}

fn hex_digit_char(d: u8) -> (c: char)
    requires
        d < 16,
    ensures
        c == hex_digit(d as int),
{
    if d < 10 {
        (0x30 + d) as char
    } else {
        (0x41 + (d - 10)) as char
    }
}

/// Appends `b` to `text` as a hexadecimal literal.
pub fn push_hex_literal(text: &mut Vec<char>, b: u8)
    ensures
        final(text)@ == old(text)@ + hex_literal(b),
{
    text.push('0');
    text.push('x');
    text.push(hex_digit_char(b / 16));
    text.push(hex_digit_char(b % 16));
    assert(text@ =~= old(text)@ + hex_literal(b));
}

} // verus!

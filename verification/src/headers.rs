//! Which diff texts may be handed to the patch parser.
//!
//! The parser reads a text line by line and looks for three kinds of header:
//! `--- name`, `+++ name` and `@@ -a,b +c,d @@`. It panics on a `+++` header
//! that no `---` header precedes, and on a hunk header whose numbers it cannot
//! read or add up. The predicates here describe texts on which neither can
//! happen, and the functions decide them.

use vstd::prelude::*;

verus! {

/// Longest run of digits accepted in a hunk header. Numbers of nine digits
/// are below a billion, so a start and a length add up within 32 bits.
pub const MAX_DIGITS: usize = 9;

/// Position `i` is the first character of a line.
pub open spec fn at_line_start(text: Seq<char>, i: int) -> bool {
    0 <= i < text.len() && (i == 0 || text[i - 1] == '\n')
}

/// The four characters from `i` on are `a b c d`.
pub open spec fn four_at(text: Seq<char>, i: int, a: char, b: char, c: char, d: char) -> bool {
    &&& 0 <= i
    &&& i + 3 < text.len()
    &&& text[i] == a
    &&& text[i + 1] == b
    &&& text[i + 2] == c
    &&& text[i + 3] == d
}

/// A line starts at `i` that certainly names a source file: `--- ` followed
/// by a character that can begin a name. A carriage return does not count:
/// before a line feed it belongs to the line end.
pub open spec fn source_header_at(text: Seq<char>, i: int) -> bool {
    &&& at_line_start(text, i)
    &&& four_at(text, i, '-', '-', '-', ' ')
    &&& i + 4 < text.len()
    &&& text[i + 4] != '\t'
    &&& text[i + 4] != '\n'
    &&& text[i + 4] != '\r'
}

/// A line starts at `i` that may name a target file: `+++ ` followed by a
/// character other than a tab on the same line, be it a carriage return.
pub open spec fn target_header_at(text: Seq<char>, i: int) -> bool {
    &&& at_line_start(text, i)
    &&& four_at(text, i, '+', '+', '+', ' ')
    &&& i + 4 < text.len()
    &&& text[i + 4] != '\t'
    &&& text[i + 4] != '\n'
}

/// Every line that may name a target file comes after one that names a
/// source file.
pub open spec fn targets_follow_sources(text: Seq<char>) -> bool {
    forall|i: int| #[trigger]
        target_header_at(text, i) ==> exists|j: int|
            0 <= j < i && #[trigger] source_header_at(text, j)
}

/// A line starts at `i` with the opening of a hunk header, `@@ -`.
pub open spec fn hunk_mark_at(text: Seq<char>, i: int) -> bool {
    at_line_start(text, i) && four_at(text, i, '@', '@', ' ', '-')
}

/// One of the ten digits `0` to `9`; digits of other scripts are none.
pub open spec fn is_digit(c: char) -> bool {
    '0' <= c <= '9'
}

/// Number of digits that stand at `i` in a row.
pub open spec fn digit_run(text: Seq<char>, i: int) -> nat
    decreases text.len() - i,
{
    if 0 <= i < text.len() && is_digit(text[i]) {
        1 + digit_run(text, i + 1)
    } else {
        0
    }
}

/// A run of digits short enough to be read as a line number.
pub open spec fn is_number_len(run: nat) -> bool {
    1 <= run <= MAX_DIGITS
}

/// Where the line range `start` or `start,length` that begins at `i` ends;
/// `None` where no such range stands.
pub open spec fn range_end(text: Seq<char>, i: int) -> Option<int> {
    let start = digit_run(text, i);
    let comma = i + start;
    if !is_number_len(start) {
        None
    } else if comma < text.len() && text[comma] == ',' {
        let length = digit_run(text, comma + 1);
        if is_number_len(length) {
            Some(comma + 1 + length)
        } else {
            None
        }
    } else {
        Some(comma)
    }
}

/// The line that starts at `i` begins with a whole hunk header,
/// `@@ -range +range @@`, its numbers written with at most
/// [`MAX_DIGITS`] digits of `0` to `9`.
pub open spec fn hunk_header_at(text: Seq<char>, i: int) -> bool {
    &&& four_at(text, i, '@', '@', ' ', '-')
    &&& range_end(text, i + 4) matches Some(plus)
    &&& plus + 1 < text.len()
    &&& text[plus] == ' '
    &&& text[plus + 1] == '+'
    &&& range_end(text, plus + 2) matches Some(close)
    &&& close + 2 < text.len()
    &&& text[close] == ' '
    &&& text[close + 1] == '@'
    &&& text[close + 2] == '@'
}

/// Every line that opens like a hunk header is one.
pub open spec fn hunk_marks_are_headers(text: Seq<char>) -> bool {
    forall|i: int| #[trigger] hunk_mark_at(text, i) ==> hunk_header_at(text, i)
}

/// The texts on which the patch parser is known to come back.
pub open spec fn parse_safe(text: Seq<char>) -> bool {
    targets_follow_sources(text) && hunk_marks_are_headers(text)
}

/// The characters of `text`, one by one.
pub fn chars_of(text: &str) -> (chars: Vec<char>)
    ensures
        chars@ == text@,
{
    let mut chars: Vec<char> = Vec::new();
    for c in it: text.chars()
        invariant
            chars@ == it.seq().take(it.index() as int),
            it.seq() == text@,
    {
        chars.push(c);
    }
    chars
}

fn starts_line(chars: &Vec<char>, i: usize) -> (r: bool)
    requires
        i < chars.len(),
    ensures
        r == at_line_start(chars@, i as int),
{
    i == 0 || chars[i - 1] == '\n'
}

fn has_four(chars: &Vec<char>, i: usize, a: char, b: char, c: char, d: char) -> (r: bool)
    requires
        i <= chars.len(),
    ensures
        r == four_at(chars@, i as int, a, b, c, d),
{
    chars.len() - i > 3 && chars[i] == a && chars[i + 1] == b && chars[i + 2] == c && chars[i + 3]
        == d
}

fn names_source(chars: &Vec<char>, i: usize) -> (r: bool)
    requires
        i < chars.len(),
    ensures
        r == source_header_at(chars@, i as int),
{
    starts_line(chars, i) && has_four(chars, i, '-', '-', '-', ' ') && chars.len() - i > 4
        && chars[i + 4] != '\t' && chars[i + 4] != '\n' && chars[i + 4] != '\r'
}

fn names_target(chars: &Vec<char>, i: usize) -> (r: bool)
    requires
        i < chars.len(),
    ensures
        r == target_header_at(chars@, i as int),
{
    starts_line(chars, i) && has_four(chars, i, '+', '+', '+', ' ') && chars.len() - i > 4
        && chars[i + 4] != '\t' && chars[i + 4] != '\n'
}

/// Decides [`targets_follow_sources`].
pub fn check_targets(chars: &Vec<char>) -> (ok: bool)
    ensures
        ok == targets_follow_sources(chars@),
{
    let mut i: usize = 0;
    while i < chars.len()
        invariant
            i <= chars.len(),
            forall|j: int| 0 <= j < i ==> !source_header_at(chars@, j),
            forall|j: int| 0 <= j < i ==> !target_header_at(chars@, j),
        decreases chars.len() - i,
    {
        if names_source(chars, i) {
            // Everything after a source header is covered by it.
            assert forall|k: int| #[trigger] target_header_at(chars@, k) implies exists|j: int|
                0 <= j < k && #[trigger] source_header_at(chars@, j) by {
                assert(k > i);
                assert(source_header_at(chars@, i as int));
            }
            return true;
        }
        if names_target(chars, i) {
            assert(target_header_at(chars@, i as int));
            return false;
        }
        i = i + 1;
    }
    true
}

fn digit(c: char) -> (r: bool)
    ensures
        r == is_digit(c),
{
    '0' <= c && c <= '9'
}

fn count_digits(chars: &Vec<char>, start: usize) -> (run: usize)
    requires
        start <= chars.len(),
    ensures
        run == digit_run(chars@, start as int),
        start + run <= chars.len(),
{
    let mut j: usize = start;
    while j < chars.len() && digit(chars[j])
        invariant
            start <= j <= chars.len(),
            digit_run(chars@, start as int) == (j - start) + digit_run(chars@, j as int),
        decreases chars.len() - j,
    {
        j = j + 1;
    }
    j - start
}

fn scan_range(chars: &Vec<char>, i: usize) -> (end: Option<usize>)
    requires
        i <= chars.len(),
    ensures
        match end {
            Some(e) => range_end(chars@, i as int) == Some(e as int) && e <= chars.len(),
            None => range_end(chars@, i as int) is None,
        },
{
    let start = count_digits(chars, i);
    if start < 1 || start > MAX_DIGITS {
        return None;
    }
    let comma = i + start;
    if comma < chars.len() && chars[comma] == ',' {
        let length = count_digits(chars, comma + 1);
        if length < 1 || length > MAX_DIGITS {
            None
        } else {
            Some(comma + 1 + length)
        }
    } else {
        Some(comma)
    }
}

fn is_hunk_header(chars: &Vec<char>, i: usize) -> (r: bool)
    requires
        i < chars.len(),
    ensures
        r == hunk_header_at(chars@, i as int),
{
    if !has_four(chars, i, '@', '@', ' ', '-') {
        return false;
    }
    let plus = match scan_range(chars, i + 4) {
        Some(plus) => plus,
        None => { return false; },
    };
    if !(chars.len() - plus > 1 && chars[plus] == ' ' && chars[plus + 1] == '+') {
        return false;
    }
    let close = match scan_range(chars, plus + 2) {
        Some(close) => close,
        None => { return false; },
    };
    chars.len() - close > 2 && chars[close] == ' ' && chars[close + 1] == '@' && chars[close + 2]
        == '@'
}

/// Decides [`hunk_marks_are_headers`].
pub fn check_hunk_marks(chars: &Vec<char>) -> (ok: bool)
    ensures
        ok == hunk_marks_are_headers(chars@),
{
    let mut i: usize = 0;
    while i < chars.len()
        invariant
            i <= chars.len(),
            forall|j: int| 0 <= j < i && #[trigger] hunk_mark_at(chars@, j) ==> hunk_header_at(chars@, j),
        decreases chars.len() - i,
    {
        if starts_line(chars, i) && has_four(chars, i, '@', '@', ' ', '-') {
            if !is_hunk_header(chars, i) {
                assert(hunk_mark_at(chars@, i as int));
                return false;
            }
        }
        i = i + 1;
    }
    true
}

/// Decides [`parse_safe`].
pub fn is_parse_safe(text: &str) -> (ok: bool)
    ensures
        ok == parse_safe(text@),
{
    let chars = chars_of(text);
    check_targets(&chars) && check_hunk_marks(&chars)
}

} // verus!

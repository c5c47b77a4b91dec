//! The smallest parts of the grammar: gaps, ends of lines, words and
//! numbers.
//!
//! Each part is a function from a text and a place in it to the place where
//! the part ends, or to nothing where the text has no such part at that
//! place. A part takes as much as it can and never gives anything back.

use vstd::prelude::*;
use vstd::string::StrSliceExecFns;
use crate::number::{chars_of, 
    capped_number, digit_at, digits_end, is_digit, is_sign, number_of, parse_scaled,
    parsed_scaled, scan_digits, sign_at, sign_len,
};

verus! {

/// A space or a tab.
pub open spec fn is_gap(c: char) -> bool {
    c == ' ' || c == '\t'
}

/// Where the spaces and tabs that start at `at` end.
pub open spec fn gap_end(text: Seq<char>, at: int) -> int
    decreases text.len() - at,
{
    if 0 <= at < text.len() && is_gap(text[at]) {
        gap_end(text, at + 1)
    } else {
        at
    }
}

/// Where a gap of one character or more ends.
pub open spec fn gap(text: Seq<char>, at: int) -> Option<int> {
    if gap_end(text, at) > at {
        Some(gap_end(text, at))
    } else {
        None
    }
}

/// Where the line that `at` lies in ends: at its line feed, or at the end of
/// the text.
pub open spec fn line_end(text: Seq<char>, at: int) -> int
    decreases text.len() - at,
{
    if 0 <= at < text.len() && text[at] != '\n' {
        line_end(text, at + 1)
    } else {
        at
    }
}

/// Where that ends which may stand before the end of a line: a gap, or else
/// a comment, which starts with `#` and runs to the end of its line.
pub open spec fn filler_end(text: Seq<char>, at: int) -> int {
    if gap_end(text, at) > at {
        gap_end(text, at)
    } else if 0 <= at < text.len() && text[at] == '#' {
        line_end(text, at + 1)
    } else {
        at
    }
}

/// Where the end of a line ends: a line feed, with or without a carriage
/// return before it.
pub open spec fn break_end(text: Seq<char>, at: int) -> Option<int> {
    if 0 <= at && at + 1 < text.len() && text[at] == '\r' && text[at + 1] == '\n' {
        Some(at + 2)
    } else if 0 <= at < text.len() && text[at] == '\n' {
        Some(at + 1)
    } else {
        None
    }
}

/// Where the lines end that hold nothing but a gap or a comment, and the gap
/// or comment behind the last of them.
pub open spec fn blank_lines_end(text: Seq<char>, at: int) -> int
    decreases text.len() - at,
{
    match break_end(text, filler_end(text, at)) {
        Some(next) => if next > at {
            blank_lines_end(text, next)
        } else {
            at
        },
        None => filler_end(text, at),
    }
}

/// Where that ends which closes a line: nothing at the end of the text, and
/// else the end of the line, after a gap or a comment, with all that follows
/// up to the next line that holds something.
pub open spec fn newline(text: Seq<char>, at: int) -> Option<int> {
    if at >= text.len() {
        Some(at)
    } else {
        match break_end(text, filler_end(text, at)) {
            Some(next) => Some(blank_lines_end(text, next)),
            None => None,
        }
    }
}

/// Where `word` ends, if it stands at `at`.
pub open spec fn tag(text: Seq<char>, at: int, word: Seq<char>) -> Option<int> {
    if 0 <= at && at + word.len() <= text.len() && text.subrange(at, at + word.len()) == word {
        Some(at + word.len())
    } else {
        None
    }
}

/// Where `word` and the gap behind it end.
pub open spec fn tag_gap(text: Seq<char>, at: int, word: Seq<char>) -> Option<int> {
    match tag(text, at, word) {
        Some(end) => gap(text, end),
        None => None,
    }
}

/// Where `word` and the end of its line end.
pub open spec fn tag_newline(text: Seq<char>, at: int, word: Seq<char>) -> Option<int> {
    match tag(text, at, word) {
        Some(end) => newline(text, end),
        None => None,
    }
}

/// A letter or a digit of ASCII.
pub open spec fn is_alnum(c: char) -> bool {
    ('0' <= c <= '9') || ('a' <= c <= 'z') || ('A' <= c <= 'Z')
}

/// Where the letters and digits that start at `at` end.
pub open spec fn alnum_end(text: Seq<char>, at: int) -> int
    decreases text.len() - at,
{
    if 0 <= at < text.len() && is_alnum(text[at]) {
        alnum_end(text, at + 1)
    } else {
        at
    }
}

/// Where a name of one letter or digit or more ends.
pub open spec fn name(text: Seq<char>, at: int) -> Option<int> {
    if alnum_end(text, at) > at {
        Some(alnum_end(text, at))
    } else {
        None
    }
}

/// Where the digits of a whole number end: it is a single zero, or starts
/// with another digit.
pub open spec fn whole_end(text: Seq<char>, at: int) -> Option<int> {
    if 0 <= at < text.len() && text[at] == '0' {
        Some(at + 1)
    } else if 0 <= at < text.len() && is_digit(text[at]) {
        Some(digits_end(text, at + 1))
    } else {
        None
    }
}

/// The whole number at `at`, and where it ends. A number beyond the range of
/// `u32` is none.
pub open spec fn whole_at(text: Seq<char>, at: int) -> Option<(u32, int)> {
    match whole_end(text, at) {
        Some(end) => if number_of(text.subrange(at, end)) <= u32::MAX {
            Some((number_of(text.subrange(at, end)) as u32, end))
        } else {
            None
        },
        None => None,
    }
}

/// Where the fraction of a number ends that may start at `at`: a point and
/// one digit or more. Where there is none, this is `at`.
pub open spec fn fraction_end(text: Seq<char>, at: int) -> int {
    if 0 <= at < text.len() && text[at] == '.' && digits_end(text, at + 1) > at + 1 {
        digits_end(text, at + 1)
    } else {
        at
    }
}

/// Where the exponent of a number ends that may start at `at`: an `e`, a sign
/// or none, and one digit or more. Where there is none, this is `at`.
pub open spec fn exponent_end(text: Seq<char>, at: int) -> int {
    if 0 <= at < text.len() && (text[at] == 'e' || text[at] == 'E') && digits_end(
        text,
        at + 1 + sign_len(text, at + 1),
    ) > at + 1 + sign_len(text, at + 1) {
        digits_end(text, at + 1 + sign_len(text, at + 1))
    } else {
        at
    }
}

/// One where a minus sign stands at `at`, and else zero.
pub open spec fn minus_len(text: Seq<char>, at: int) -> int {
    if 0 <= at < text.len() && text[at] == '-' {
        1
    } else {
        0
    }
}

/// Where a decimal number ends: a minus sign or none, a whole number, and
/// after it a fraction, an exponent, both or neither.
pub open spec fn decimal_end(text: Seq<char>, at: int) -> Option<int> {
    match whole_end(text, at + minus_len(text, at)) {
        Some(end) => Some(exponent_end(text, fraction_end(text, end))),
        None => None,
    }
}

/// The decimal number at `at`, counted in units of ten to the power of minus
/// `kept`, and where it ends. A number beyond the range of `i64` is none.
pub open spec fn decimal_at(text: Seq<char>, at: int, kept: int) -> Option<(i64, int)> {
    match decimal_end(text, at) {
        Some(end) => match parsed_scaled(text.subrange(at, end), kept) {
            Ok(value) => Some((value, end)),
            Err(_) => None,
        },
        None => None,
    }
}

/// Where the blanks end that `text` starts with, as far as `to`.
pub open spec fn trim_start(text: Seq<char>, from: int, to: int) -> int
    decreases to - from,
{
    if from < to && crate::sequence::definitions::is_blank(text[from]) {
        trim_start(text, from + 1, to)
    } else {
        from
    }
}

/// Where the blanks start that `text` ends with before `to`, back to `from`.
pub open spec fn trim_end(text: Seq<char>, from: int, to: int) -> int
    decreases to - from,
{
    if from < to && crate::sequence::definitions::is_blank(text[to - 1]) {
        trim_end(text, from, to - 1)
    } else {
        to
    }
}

/// The part of `text` between `from` and `to`, without the blanks at its
/// start and at its end.
pub open spec fn trimmed(text: Seq<char>, from: int, to: int) -> Seq<char> {
    text.subrange(trim_start(text, from, to), trim_end(text, trim_start(text, from, to), to))
}

/// A text to be read: the text itself, and its characters one by one.
pub struct Input<'a> {
    source: &'a str,
    chars: Vec<char>,
}

impl<'a> Input<'a> {
    /// The characters of the text.
    pub closed spec fn view(&self) -> Seq<char> {
        self.chars@
    }

    #[verifier::type_invariant]
    spec fn coherent(self) -> bool {
        self.chars@ == self.source@
    }

    pub fn new(source: &'a str) -> (input: Self)
        ensures
            input@ == source@,
    {
        Input { source, chars: chars_of(source) }
    }

    /// The characters of the text.
    pub fn chars(&self) -> (chars: &Vec<char>)
        ensures
            chars@ == self@,
    {
        &self.chars
    }

    /// The part of the text between two places.
    pub(crate) fn piece(&self, from: usize, to: usize) -> (part: String)
        requires
            from <= to <= self@.len(),
        ensures
            part@ == self@.subrange(from as int, to as int),
    {
        proof {
            use_type_invariant(self);
        }
        self.source.substring_char(from, to).to_owned()
    }

    /// The part of the text between two places, without the blanks around
    /// it.
    pub(crate) fn trimmed_piece(&self, from: usize, to: usize) -> (part: String)
        requires
            from <= to <= self@.len(),
        ensures
            part@ == trimmed(self@, from as int, to as int),
    {
        let (start, end) = trim(&self.chars, from, to);
        self.piece(start, end)
    }
}

/// Finds the end of a gap that may be empty.
pub(crate) fn skip_gap(text: &Vec<char>, at: usize) -> (end: usize)
    requires
        at <= text@.len(),
    ensures
        end == gap_end(text@, at as int),
        at <= end <= text@.len(),
{
    let len: usize = text.len();
    let mut end: usize = at;
    while end < len && (text[end] == ' ' || text[end] == '\t')
        invariant
            at <= end <= text@.len(),
            len == text@.len(),
            gap_end(text@, at as int) == gap_end(text@, end as int),
        decreases len - end,
    {
        end = end + 1;
    }
    end
}

/// Finds the end of a gap.
pub fn ws(text: &Vec<char>, at: usize) -> (end: Option<usize>)
    ensures
        match end {
            Some(end) => gap(text@, at as int) == Some(end as int) && at < end <= text@.len(),
            None => gap(text@, at as int) is None,
        },
{
    if at > text.len() {
        return None;
    }
    let end: usize = skip_gap(text, at);
    if end > at {
        Some(end)
    } else {
        None
    }
}

/// Finds the end of a line.
pub(crate) fn scan_line(text: &Vec<char>, at: usize) -> (end: usize)
    requires
        at <= text@.len(),
    ensures
        end == line_end(text@, at as int),
        at <= end <= text@.len(),
{
    let len: usize = text.len();
    let mut end: usize = at;
    while end < len && text[end] != '\n'
        invariant
            at <= end <= text@.len(),
            len == text@.len(),
            line_end(text@, at as int) == line_end(text@, end as int),
        decreases len - end,
    {
        end = end + 1;
    }
    end
}

/// Finds the end of a gap or a comment.
pub(crate) fn skip_filler(text: &Vec<char>, at: usize) -> (end: usize)
    requires
        at <= text@.len(),
    ensures
        end == filler_end(text@, at as int),
        at <= end <= text@.len(),
{
    let gap: usize = skip_gap(text, at);
    if gap > at {
        gap
    } else if at < text.len() && text[at] == '#' {
        scan_line(text, at + 1)
    } else {
        at
    }
}

/// Finds the end of the end of a line.
pub(crate) fn scan_break(text: &Vec<char>, at: usize) -> (end: Option<usize>)
    requires
        at <= text@.len(),
    ensures
        match end {
            Some(end) => break_end(text@, at as int) == Some(end as int) && at < end
                <= text@.len(),
            None => break_end(text@, at as int) is None,
        },
{
    let len: usize = text.len();
    if at < len && text[at] == '\r' && at + 1 < len && text[at + 1] == '\n' {
        Some(at + 2)
    } else if at < len && text[at] == '\n' {
        Some(at + 1)
    } else {
        None
    }
}

/// Finds the end of what closes a line.
pub fn nl(text: &Vec<char>, at: usize) -> (end: Option<usize>)
    ensures
        match end {
            Some(end) => newline(text@, at as int) == Some(end as int) && at <= end && (at
                <= text@.len() ==> end <= text@.len()),
            None => newline(text@, at as int) is None,
        },
{
    if at >= text.len() {
        return Some(at);
    }
    let mut next: usize = match scan_break(text, skip_filler(text, at)) {
        Some(next) => next,
        None => {
            return None;
        },
    };
    loop
        invariant
            at < next <= text@.len(),
            newline(text@, at as int) == Some(blank_lines_end(text@, next as int)),
        decreases text@.len() - next,
    {
        let filled: usize = skip_filler(text, next);
        match scan_break(text, filled) {
            Some(further) => {
                next = further;
            },
            None => {
                return Some(filled);
            },
        }
    }
}

/// Finds the end of what closes a line, where anything does.
pub(crate) fn skip_newline(text: &Vec<char>, at: usize) -> (end: usize)
    requires
        at <= text@.len(),
    ensures
        end == match newline(text@, at as int) {
            Some(end) => end,
            None => at as int,
        },
        at <= end <= text@.len(),
{
    match nl(text, at) {
        Some(end) => end,
        None => at,
    }
}

/// Finds the end of `word`, if it stands at `at`.
pub(crate) fn scan_tag(text: &Vec<char>, at: usize, word: &str) -> (end: Option<usize>)
    requires
        at <= text@.len(),
    ensures
        match end {
            Some(end) => tag(text@, at as int, word@) == Some(end as int) && at <= end
                <= text@.len(),
            None => tag(text@, at as int, word@) is None,
        },
{
    let wanted: Vec<char> = chars_of(word);
    let len: usize = text.len();
    if wanted.len() > len - at {
        return None;
    }
    let mut i: usize = 0;
    while i < wanted.len()
        invariant
            i <= wanted@.len(),
            at + wanted@.len() <= text@.len(),
            text@.len() == len,
            wanted@ == word@,
            text@.subrange(at as int, at + i) == wanted@.take(i as int),
        decreases wanted.len() - i,
    {
        if text[at + i] != wanted[i] {
            assert(text@.subrange(at as int, at + wanted@.len())[i as int] != wanted@[i as int]);
            return None;
        }
        assert(text@.subrange(at as int, at + i + 1) =~= text@.subrange(at as int, at + i).push(
            text@[at + i],
        ));
        assert(wanted@.take(i + 1) =~= wanted@.take(i as int).push(wanted@[i as int]));
        i = i + 1;
    }
    assert(wanted@.take(wanted@.len() as int) =~= wanted@);
    Some(at + wanted.len())
}

/// Finds the end of `word` and the gap behind it.
pub fn tag_ws(text: &Vec<char>, at: usize, word: &str) -> (end: Option<usize>)
    ensures
        match end {
            Some(end) => tag_gap(text@, at as int, word@) == Some(end as int) && at <= end
                <= text@.len(),
            None => tag_gap(text@, at as int, word@) is None,
        },
{
    if at > text.len() {
        return None;
    }
    match scan_tag(text, at, word) {
        Some(end) => ws(text, end),
        None => None,
    }
}

/// Finds the end of `word` and the end of its line.
pub fn tag_nl(text: &Vec<char>, at: usize, word: &str) -> (end: Option<usize>)
    ensures
        match end {
            Some(end) => tag_newline(text@, at as int, word@) == Some(end as int) && at <= end
                <= text@.len(),
            None => tag_newline(text@, at as int, word@) is None,
        },
{
    if at > text.len() {
        return None;
    }
    match scan_tag(text, at, word) {
        Some(end) => nl(text, end),
        None => None,
    }
}

fn alnum(c: char) -> (r: bool)
    ensures
        r == is_alnum(c),
{
    (c >= '0' && c <= '9') || (c >= 'a' && c <= 'z') || (c >= 'A' && c <= 'Z')
}

/// Finds the end of a name.
pub fn ident(text: &Vec<char>, at: usize) -> (end: Option<usize>)
    ensures
        match end {
            Some(end) => name(text@, at as int) == Some(end as int) && at < end <= text@.len(),
            None => name(text@, at as int) is None && alnum_end(text@, at as int) == at,
        },
{
    if at > text.len() {
        return None;
    }
    let len: usize = text.len();
    let mut end: usize = at;
    while end < len && alnum(text[end])
        invariant
            at <= end <= text@.len(),
            len == text@.len(),
            alnum_end(text@, at as int) == alnum_end(text@, end as int),
        decreases len - end,
    {
        end = end + 1;
    }
    if end > at {
        Some(end)
    } else {
        None
    }
}

/// Finds the end of the digits of a whole number.
pub(crate) fn scan_whole_end(text: &Vec<char>, at: usize) -> (end: Option<usize>)
    requires
        at <= text@.len(),
    ensures
        match end {
            Some(end) => {
                &&& whole_end(text@, at as int) == Some(end as int)
                &&& at < end <= text@.len()
                &&& forall|i: int| at <= i < end ==> is_digit(#[trigger] text@[i])
            },
            None => whole_end(text@, at as int) is None,
        },
{
    if at < text.len() && text[at] == '0' {
        Some(at + 1)
    } else if digit_at(text, at) {
        Some(scan_digits(text, at + 1))
    } else {
        None
    }
}

/// Reads a whole number.
pub fn integer(text: &Vec<char>, at: usize) -> (number: Option<(u32, usize)>)
    ensures
        match number {
            Some((value, end)) => whole_at(text@, at as int) == Some((value, end as int)) && at < end
                <= text@.len(),
            None => whole_at(text@, at as int) is None,
        },
{
    if at > text.len() {
        return None;
    }
    match scan_whole_end(text, at) {
        Some(end) => {
            let value: u128 = capped_number(text, at, end);
            if value <= u32::MAX as u128 {
                Some((value as u32, end))
            } else {
                None
            }
        },
        None => None,
    }
}

/// Finds the end of a decimal number.
pub(crate) fn scan_decimal_end(text: &Vec<char>, at: usize) -> (end: Option<usize>)
    requires
        at <= text@.len(),
    ensures
        match end {
            Some(end) => decimal_end(text@, at as int) == Some(end as int) && at < end
                <= text@.len(),
            None => decimal_end(text@, at as int) is None,
        },
{
    let len: usize = text.len();
    let start: usize = if at < len && text[at] == '-' {
        at + 1
    } else {
        at
    };
    let whole: usize = match scan_whole_end(text, start) {
        Some(end) => end,
        None => {
            return None;
        },
    };
    let mut end: usize = whole;
    if end < len && text[end] == '.' {
        let digits: usize = scan_digits(text, end + 1);
        if digits > end + 1 {
            end = digits;
        }
    }
    if end < len && (text[end] == 'e' || text[end] == 'E') {
        let from: usize = if sign_at(text, end + 1) {
            end + 2
        } else {
            end + 1
        };
        let digits: usize = scan_digits(text, from);
        if digits > from {
            end = digits;
        }
    }
    Some(end)
}

/// The characters of `text` from `from` to `to`.
pub(crate) fn part_of(text: &Vec<char>, from: usize, to: usize) -> (part: Vec<char>)
    requires
        from <= to <= text@.len(),
    ensures
        part@ == text@.subrange(from as int, to as int),
{
    let mut part: Vec<char> = Vec::new();
    let mut i: usize = from;
    while i < to
        invariant
            from <= i <= to <= text@.len(),
            part@ == text@.subrange(from as int, i as int),
        decreases to - i,
    {
        part.push(text[i]);
        assert(text@.subrange(from as int, i + 1) =~= text@.subrange(from as int, i as int).push(
            text@[i as int],
        ));
        i = i + 1;
    }
    part
}

/// Reads a decimal number, counted in units of ten to the power of minus
/// `kept`.
pub fn float(text: &Vec<char>, at: usize, kept: u8) -> (number: Option<(i64, usize)>)
    ensures
        match number {
            Some((value, end)) => decimal_at(text@, at as int, kept as int) == Some((value, end as int))
                && at < end <= text@.len(),
            None => decimal_at(text@, at as int, kept as int) is None,
        },
{
    if at > text.len() {
        return None;
    }
    match scan_decimal_end(text, at) {
        Some(end) => {
            let numeral: Vec<char> = part_of(text, at, end);
            match parse_scaled(&numeral, kept) {
                Ok(value) => Some((value, end)),
                Err(_) => None,
            }
        },
        None => None,
    }
}

/// Finds the part of `text` between `from` and `to` that is left without the
/// blanks at its start and at its end.
pub(crate) fn trim(text: &Vec<char>, from: usize, to: usize) -> (part: (usize, usize))
    requires
        from <= to <= text@.len(),
    ensures
        part.0 == trim_start(text@, from as int, to as int),
        part.1 == trim_end(text@, part.0 as int, to as int),
        from <= part.0 <= part.1 <= to,
{
    let mut start: usize = from;
    while start < to && crate::sequence::definitions::blank(text[start])
        invariant
            from <= start <= to <= text@.len(),
            trim_start(text@, from as int, to as int) == trim_start(
                text@,
                start as int,
                to as int,
            ),
        decreases to - start,
    {
        start = start + 1;
    }
    let mut end: usize = to;
    while start < end && crate::sequence::definitions::blank(text[end - 1])
        invariant
            start <= end <= to <= text@.len(),
            trim_end(text@, start as int, to as int) == trim_end(text@, start as int, end as int),
        decreases end - start,
    {
        end = end - 1;
    }
    (start, end)
}

} // verus!

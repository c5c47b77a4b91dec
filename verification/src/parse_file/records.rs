//! Lines of numbers: most sections of a file hold one record per line, and a
//! record is a row of numbers with gaps between them.

use vstd::prelude::*;
use crate::parse_file::scan::{
    decimal_at, gap, gap_end, newline, float, ws, nl, integer,
    skip_gap, whole_at,
};

verus! {

/// What is expected at one place of a row.
#[derive(Debug, Clone, Copy, PartialEq, Eq, Structural)]
pub enum Kind {
    /// A whole number in the range of `u32`.
    Whole,
    /// A decimal number, counted in units of ten to the power of minus this.
    Decimal(u8),
}

/// The number of the given kind at `at`, and where it ends.
pub open spec fn field(text: Seq<char>, at: int, kind: Kind) -> Option<(i64, int)> {
    match kind {
        Kind::Whole => match whole_at(text, at) {
            Some((value, end)) => Some((value as i64, end)),
            None => None,
        },
        Kind::Decimal(kept) => decimal_at(text, at, kept as int),
    }
}

/// What is read, with `before` in front of it.
pub open spec fn after(before: Seq<i64>, read: Option<(Seq<i64>, int)>) -> Option<
    (Seq<i64>, int),
> {
    match read {
        Some((values, end)) => Some((before + values, end)),
        None => None,
    }
}

/// The numbers of the kinds from the `i`-th on, each after a gap, and where
/// the last of them ends.
pub open spec fn fields(text: Seq<char>, at: int, kinds: Seq<Kind>, i: int) -> Option<
    (Seq<i64>, int),
>
    decreases kinds.len() - i,
{
    if i < 0 || i >= kinds.len() {
        Some((Seq::empty(), at))
    } else {
        match gap(text, at) {
            None => None,
            Some(start) => match field(text, start, kinds[i]) {
                None => None,
                Some((value, end)) => after(seq![value], fields(text, end, kinds, i + 1)),
            },
        }
    }
}

/// A row of numbers of the given kinds: the first may stand after a gap, and
/// each of the others must.
pub open spec fn row(text: Seq<char>, at: int, kinds: Seq<Kind>) -> Option<(Seq<i64>, int)> {
    if kinds.len() == 0 {
        None
    } else {
        match field(text, gap_end(text, at), kinds[0]) {
            None => None,
            Some((value, end)) => after(seq![value], fields(text, end, kinds, 1)),
        }
    }
}

/// A line that holds a row of numbers: those of `kinds`, then those of
/// `extra` or none of them, then the end of the line.
pub open spec fn line(text: Seq<char>, at: int, kinds: Seq<Kind>, extra: Seq<Kind>) -> Option<
    (Seq<i64>, int),
> {
    match row(text, at, kinds) {
        None => None,
        Some((values, end)) => match fields(text, end, extra, 0) {
            Some((more, further)) => match newline(text, further) {
                Some(next) => Some((values + more, next)),
                None => None,
            },
            None => match newline(text, end) {
                Some(next) => Some((values, next)),
                None => None,
            },
        },
    }
}

/// The lines of numbers that follow each other from `at` on, and where the
/// last of them ends.
pub open spec fn lines(text: Seq<char>, at: int, kinds: Seq<Kind>, extra: Seq<Kind>) -> (
    Seq<Seq<i64>>,
    int,
)
    decreases text.len() - at,
{
    match line(text, at, kinds, extra) {
        Some((values, next)) => if at < next <= text.len() {
            (
                seq![values] + lines(text, next, kinds, extra).0,
                lines(text, next, kinds, extra).1,
            )
        } else {
            (Seq::empty(), at)
        },
        None => (Seq::empty(), at),
    }
}

/// The rows of a list of lines.
pub open spec fn rows_of(rows: Seq<Vec<i64>>) -> Seq<Seq<i64>> {
    Seq::new(rows.len(), |i: int| rows[i]@)
}

/// Reads one number of the given kind.
pub(crate) fn scan_field(text: &Vec<char>, at: usize, kind: Kind) -> (number: Option<(i64, usize)>)
    requires
        at <= text@.len(),
    ensures
        match number {
            Some((value, end)) => field(text@, at as int, kind) == Some((value, end as int))
                && at < end <= text@.len(),
            None => field(text@, at as int, kind) is None,
        },
{
    match kind {
        Kind::Whole => match integer(text, at) {
            Some((value, end)) => Some((value as i64, end)),
            None => None,
        },
        Kind::Decimal(kept) => float(text, at, kept),
    }
}

/// Reads the numbers of the kinds from the `from`-th on, each after a gap,
/// and adds them to `values`.
pub(crate) fn scan_fields(
    text: &Vec<char>,
    at: usize,
    kinds: &Vec<Kind>,
    from: usize,
    values: &mut Vec<i64>,
) -> (end: Option<usize>)
    requires
        at <= text@.len(),
    ensures
        match end {
            Some(end) => {
                &&& after(old(values)@, fields(text@, at as int, kinds@, from as int)) == Some(
                    (final(values)@, end as int),
                )
                &&& at <= end <= text@.len()
            },
            None => fields(text@, at as int, kinds@, from as int) is None,
        },
{
    let ghost before = values@;
    let mut place: usize = at;
    let mut i: usize = from;
    while i < kinds.len()
        invariant
            at <= place <= text@.len(),
            after(before, fields(text@, at as int, kinds@, from as int)) == after(
                values@,
                fields(text@, place as int, kinds@, i as int),
            ),
            fields(text@, at as int, kinds@, from as int) is None ==> fields(
                text@,
                place as int,
                kinds@,
                i as int,
            ) is None,
        decreases kinds.len() - i,
    {
        let start: usize = match ws(text, place) {
            Some(start) => start,
            None => {
                return None;
            },
        };
        let (value, end) = match scan_field(text, start, kinds[i]) {
            Some(read) => read,
            None => {
                return None;
            },
        };
        proof {
            let rest = fields(text@, end as int, kinds@, i + 1);
            if rest is Some {
                assert((values@ + seq![value]) + rest->Some_0.0 =~= values@ + (seq![value]
                    + rest->Some_0.0));
            }
            assert(values@.push(value) =~= values@ + seq![value]);
        }
        values.push(value);
        place = end;
        i = i + 1;
    }
    assert(values@ + Seq::<i64>::empty() =~= values@);
    Some(place)
}

/// Reads a row of numbers of the given kinds.
pub(crate) fn scan_row(text: &Vec<char>, at: usize, kinds: &Vec<Kind>) -> (read: Option<
    (Vec<i64>, usize),
>)
    requires
        at <= text@.len(),
    ensures
        match read {
            Some((values, end)) => row(text@, at as int, kinds@) == Some((values@, end as int))
                && at < end <= text@.len(),
            None => row(text@, at as int, kinds@) is None,
        },
{
    if kinds.len() == 0 {
        return None;
    }
    let (first, end) = match scan_field(text, skip_gap(text, at), kinds[0]) {
        Some(read) => read,
        None => {
            return None;
        },
    };
    let mut values: Vec<i64> = Vec::new();
    values.push(first);
    assert(values@ =~= seq![first]);
    match scan_fields(text, end, kinds, 1, &mut values) {
        Some(end) => Some((values, end)),
        None => None,
    }
}

/// Reads a line that holds a row of numbers.
pub(crate) fn scan_line_of(text: &Vec<char>, at: usize, kinds: &Vec<Kind>, extra: &Vec<Kind>) -> (read:
    Option<(Vec<i64>, usize)>)
    requires
        at <= text@.len(),
    ensures
        match read {
            Some((values, next)) => line(text@, at as int, kinds@, extra@) == Some(
                (values@, next as int),
            ) && at < next <= text@.len(),
            None => line(text@, at as int, kinds@, extra@) is None,
        },
{
    let (values, end) = match scan_row(text, at, kinds) {
        Some(read) => read,
        None => {
            return None;
        },
    };
    let mut with_extra: Vec<i64> = values.clone();
    assert(with_extra@ =~= values@);
    match scan_fields(text, end, extra, 0, &mut with_extra) {
        Some(further) => match nl(text, further) {
            Some(next) => Some((with_extra, next)),
            None => None,
        },
        None => match nl(text, end) {
            Some(next) => Some((values, next)),
            None => None,
        },
    }
}

/// Reads the lines of numbers that follow each other from `at` on.
pub(crate) fn scan_lines(text: &Vec<char>, at: usize, kinds: &Vec<Kind>, extra: &Vec<Kind>) -> (read: (
    Vec<Vec<i64>>,
    usize,
))
    requires
        at <= text@.len(),
    ensures
        rows_of(read.0@) == lines(text@, at as int, kinds@, extra@).0,
        read.1 == lines(text@, at as int, kinds@, extra@).1,
        at <= read.1 <= text@.len(),
{
    let mut rows: Vec<Vec<i64>> = Vec::new();
    let mut place: usize = at;
    loop
        invariant
            at <= place <= text@.len(),
            lines(text@, at as int, kinds@, extra@).0 == rows_of(rows@) + lines(
                text@,
                place as int,
                kinds@,
                extra@,
            ).0,
            lines(text@, at as int, kinds@, extra@).1 == lines(
                text@,
                place as int,
                kinds@,
                extra@,
            ).1,
        decreases text@.len() - place,
    {
        match scan_line_of(text, place, kinds, extra) {
            Some((values, next)) => {
                proof {
                    let rest = lines(text@, next as int, kinds@, extra@).0;
                    assert(rows_of(rows@.push(values)) =~= rows_of(rows@) + seq![values@]);
                    assert((rows_of(rows@) + seq![values@]) + rest =~= rows_of(rows@) + (
                    seq![values@] + rest));
                }
                rows.push(values);
                place = next;
            },
            None => {
                assert(rows_of(rows@) + Seq::<Seq<i64>>::empty() =~= rows_of(rows@));
                return (rows, place);
            },
        }
    }
}

} // verus!

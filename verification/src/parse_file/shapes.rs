//! The section of the shapes. Each shape is stored with its identifier, the
//! number of its samples, and its samples, one per line, compressed or not.

use vstd::prelude::*;
use crate::error::ShapeDecompressionError;
use crate::fixed::Fixed;
use crate::parse_file::helpers::{decompress_shape, decompressed};
use crate::parse_file::records::{lines, rows_of, scan_lines, Kind};
use crate::parse_file::scan::{
    Input, newline, nl, tag_ws, tag_nl, integer, tag_gap, tag_newline,
    whole_at,
};
use crate::parse_file::numeric::number;
use crate::parse_file::{shapes_of, Section, SectionModel, Shape};

verus! {

/// Where one of two words and the gap behind it end.
pub open spec fn either_tag_gap(text: Seq<char>, at: int, one: Seq<char>, other: Seq<char>)
    -> Option<int> {
    match tag_gap(text, at, one) {
        Some(end) => Some(end),
        None => tag_gap(text, at, other),
    }
}

/// The whole number on a line that holds one of two words and the number,
/// and where the line ends.
pub open spec fn either_line(text: Seq<char>, at: int, one: Seq<char>, other: Seq<char>)
    -> Option<(u32, int)> {
    match either_tag_gap(text, at, one, other) {
        None => None,
        Some(start) => match whole_at(text, start) {
            None => None,
            Some((value, end)) => match newline(text, end) {
                Some(next) => Some((value, next)),
                None => None,
            },
        },
    }
}

/// What the line of a sample holds.
pub open spec fn sample_kinds() -> Seq<Kind> {
    seq![Kind::Decimal(9)]
}

/// The samples that rows hold.
pub open spec fn samples_of(rows: Seq<Seq<i64>>) -> Seq<Fixed> {
    Seq::new(rows.len(), |i: int| number(rows[i], 0))
}

/// A shape as it is stored.
pub struct StoredShape {
    pub id: u32,
    /// The number of samples that the shape has once it is decompressed.
    pub count: u32,
    pub stored: Seq<Fixed>,
}

/// The stored shape at `at`: a line with its identifier, a line with the
/// number of its samples, and the lines of its stored samples.
pub open spec fn stored_shape_at(text: Seq<char>, at: int) -> Option<(StoredShape, int)> {
    match either_line(text, at, "Shape_ID"@, "shape_id"@) {
        None => None,
        Some((id, second)) => match either_line(text, second, "Num_Uncompressed"@, "num_samples"@) {
            None => None,
            Some((count, third)) => Some(
                (
                    StoredShape {
                        id,
                        count,
                        stored: samples_of(lines(text, third, sample_kinds(), Seq::empty()).0),
                    },
                    lines(text, third, sample_kinds(), Seq::empty()).1,
                ),
            ),
        },
    }
}

/// The shapes that follow each other from `at` on, decompressed, and where
/// the last of them ends; or the failure of the first that cannot be
/// decompressed.
pub open spec fn shapes_from(text: Seq<char>, at: int) -> Result<
    (Seq<(u32, Seq<Fixed>)>, int),
    ShapeDecompressionError,
>
    decreases text.len() - at,
{
    match stored_shape_at(text, at) {
        Some((shape, next)) => if at < next <= text.len() {
            match decompressed(shape.stored, shape.count as nat) {
                Err(e) => Err(e),
                Ok(samples) => match shapes_from(text, next) {
                    Err(e) => Err(e),
                    Ok((more, end)) => Ok((seq![(shape.id, samples)] + more, end)),
                },
            }
        } else {
            Ok((Seq::empty(), at))
        },
        None => Ok((Seq::empty(), at)),
    }
}

/// The section of the shapes at `at`.
pub open spec fn shapes_section(text: Seq<char>, at: int) -> Result<
    Option<(SectionModel, int)>,
    ShapeDecompressionError,
> {
    match tag_newline(text, at, "[SHAPES]"@) {
        None => Ok(None),
        Some(start) => match shapes_from(text, start) {
            Err(e) => Err(e),
            Ok((shapes, end)) => Ok(Some((SectionModel::Shapes(shapes), end))),
        },
    }
}

fn scan_either_line(text: &Vec<char>, at: usize, one: &str, other: &str) -> (read: Option<
    (u32, usize),
>)
    requires
        at <= text@.len(),
    ensures
        match read {
            Some((value, next)) => either_line(text@, at as int, one@, other@) == Some(
                (value, next as int),
            ) && at < next <= text@.len(),
            None => either_line(text@, at as int, one@, other@) is None,
        },
{
    let start: usize = match tag_ws(text, at, one) {
        Some(start) => start,
        None => match tag_ws(text, at, other) {
            Some(start) => start,
            None => {
                return None;
            },
        },
    };
    let (value, end) = match integer(text, start) {
        Some(read) => read,
        None => {
            return None;
        },
    };
    match nl(text, end) {
        Some(next) => Some((value, next)),
        None => None,
    }
}

/// The samples that rows hold.
fn samples(rows: &Vec<Vec<i64>>) -> (samples: Vec<Fixed>)
    ensures
        samples@ == samples_of(rows_of(rows@)),
{
    let mut samples: Vec<Fixed> = Vec::new();
    let mut i: usize = 0;
    while i < rows.len()
        invariant
            i <= rows@.len(),
            samples@ == samples_of(rows_of(rows@)).take(i as int),
        decreases rows.len() - i,
    {
        let row: &Vec<i64> = &rows[i];
        let sample: Fixed = if row.len() > 0 {
            row[0]
        } else {
            0
        };
        samples.push(sample);
        assert(samples@ =~= samples_of(rows_of(rows@)).take(i + 1));
        i = i + 1;
    }
    assert(samples@ =~= samples_of(rows_of(rows@)));
    samples
}

/// Reads the stored shape at `at`, a place in the text.
fn read_raw_shape(text: &Vec<char>, at: usize) -> (read: Option<(u32, u32, Vec<Fixed>, usize)>)
    requires
        at <= text@.len(),
    ensures
        match read {
            Some((id, count, stored, next)) => {
                &&& stored_shape_at(text@, at as int) == Some(
                    (StoredShape { id, count, stored: stored@ }, next as int),
                )
                &&& at < next <= text@.len()
            },
            None => stored_shape_at(text@, at as int) is None,
        },
{
    let (id, second) = match scan_either_line(text, at, "Shape_ID", "shape_id") {
        Some(read) => read,
        None => {
            return None;
        },
    };
    let (count, third) = match scan_either_line(text, second, "Num_Uncompressed", "num_samples") {
        Some(read) => read,
        None => {
            return None;
        },
    };
    let kinds: Vec<Kind> = vec![Kind::Decimal(9)];
    assert(kinds@ =~= sample_kinds());
    let extra: Vec<Kind> = Vec::new();
    let (rows, next) = scan_lines(text, third, &kinds, &extra);
    Some((id, count, samples(&rows), next))
}

/// Reads the stored shape at `at`: its identifier, the number of its
/// samples with its stored samples, and where it ends.
pub fn raw_shape(input: &Input, at: usize) -> (read: Option<((u32, (u32, Vec<Fixed>)), usize)>)
    ensures
        match read {
            Some(((id, (count, stored)), next)) => {
                &&& stored_shape_at(input@, at as int) == Some(
                    (StoredShape { id, count, stored: stored@ }, next as int),
                )
                &&& at < next <= input@.len()
            },
            None => stored_shape_at(input@, at as int) is None,
        },
{
    if at > input.chars().len() {
        None
    } else {
        match read_raw_shape(input.chars(), at) {
            Some((id, count, stored, next)) => Some(((id, (count, stored)), next)),
            None => None,
        }
    }
}

/// Reads the shapes that follow each other from `at` on, and decompresses
/// them.
fn scan_shapes_from(text: &Vec<char>, at: usize) -> (read: Result<
    (Vec<Shape>, usize),
    ShapeDecompressionError,
>)
    requires
        at <= text@.len(),
    ensures
        match read {
            Ok((shapes, end)) => shapes_from(text@, at as int) == Ok::<
                (Seq<(u32, Seq<Fixed>)>, int),
                ShapeDecompressionError,
            >((shapes_of(shapes@), end as int)) && at <= end <= text@.len(),
            Err(e) => shapes_from(text@, at as int) == Err::<
                (Seq<(u32, Seq<Fixed>)>, int),
                ShapeDecompressionError,
            >(e),
        },
{
    let mut shapes: Vec<Shape> = Vec::new();
    let mut place: usize = at;
    loop
        invariant
            at <= place <= text@.len(),
            shapes_from(text@, at as int) == match shapes_from(text@, place as int) {
                Ok((more, end)) => Ok::<(Seq<(u32, Seq<Fixed>)>, int), ShapeDecompressionError>(
                    (shapes_of(shapes@) + more, end),
                ),
                Err(e) => Err(e),
            },
        decreases text@.len() - place,
    {
        match read_raw_shape(text, place) {
            Some((id, count, stored, next)) => {
                match decompress_shape(stored, count) {
                    Ok(samples) => {
                        proof {
                            let read = (id, samples@);
                            let shape = Shape { id, samples };
                            assert(shapes_of(shapes@.push(shape)) =~= shapes_of(shapes@)
                                + seq![read]);
                            match shapes_from(text@, next as int) {
                                Ok((more, end)) => {
                                    assert((shapes_of(shapes@) + seq![read]) + more
                                        =~= shapes_of(shapes@) + (seq![read] + more));
                                },
                                Err(_) => {},
                            }
                        }
                        shapes.push(Shape { id, samples });
                        place = next;
                    },
                    Err(e) => {
                        return Err(e);
                    },
                }
            },
            None => {
                assert(shapes_of(shapes@) + Seq::<(u32, Seq<Fixed>)>::empty() =~= shapes_of(
                    shapes@,
                ));
                return Ok((shapes, place));
            },
        }
    }
}

/// Reads the section of the shapes at `at`, a place in the text.
fn read_shapes(text: &Vec<char>, at: usize) -> (read: Result<
    Option<(Section, usize)>,
    ShapeDecompressionError,
>)
    requires
        at <= text@.len(),
    ensures
        match read {
            Ok(Some((section, end))) => shapes_section(text@, at as int) == Ok::<
                Option<(SectionModel, int)>,
                ShapeDecompressionError,
            >(Some((section.model(), end as int))) && at <= end <= text@.len(),
            Ok(None) => shapes_section(text@, at as int) == Ok::<
                Option<(SectionModel, int)>,
                ShapeDecompressionError,
            >(None),
            Err(e) => shapes_section(text@, at as int) == Err::<
                Option<(SectionModel, int)>,
                ShapeDecompressionError,
            >(e),
        },
{
    match tag_nl(text, at, "[SHAPES]") {
        None => Ok(None),
        Some(start) => match scan_shapes_from(text, start) {
            Ok((shapes, end)) => Ok(Some((Section::Shapes(shapes), end))),
            Err(e) => Err(e),
        },
    }
}

/// Reads the section of the shapes at `at`.
pub fn shapes(input: &Input, at: usize) -> (read: Result<
    Option<(Section, usize)>,
    ShapeDecompressionError,
>)
    ensures
        match read {
            Ok(Some((section, end))) => shapes_section(input@, at as int) == Ok::<
                Option<(SectionModel, int)>,
                ShapeDecompressionError,
            >(Some((section.model(), end as int))) && at <= end <= input@.len(),
            Ok(None) => shapes_section(input@, at as int) == Ok::<
                Option<(SectionModel, int)>,
                ShapeDecompressionError,
            >(None),
            Err(e) => shapes_section(input@, at as int) == Err::<
                Option<(SectionModel, int)>,
                ShapeDecompressionError,
            >(e),
        },
{
    if at > input.chars().len() {
        Ok(None)
    } else {
        read_shapes(input.chars(), at)
    }
}

} // verus!

//! The sections that hold one record of numbers per line: blocks, pulses,
//! gradients, trapezoids, sampling windows and delays.
//!
//! Times that a file gives in microseconds or nanoseconds are turned into
//! seconds here.

use vstd::prelude::*;
use crate::fixed::Fixed;
use crate::parse_file::records::{lines, rows_of, scan_lines, Kind};
use crate::parse_file::scan::{tag_nl, tag_newline, Input};
use crate::parse_file::{
    Adc, Block, BlockDuration, Delay, Dialect, ExtensionRef, Gradient, Rf, Section, SectionModel,
    Trap,
};

verus! {

/// The `i`-th number of a row; zero where the row is shorter.
pub open spec fn number(row: Seq<i64>, i: int) -> i64 {
    if 0 <= i < row.len() {
        row[i]
    } else {
        0
    }
}

/// The `i`-th number of a row as an identifier or a count; zero where it is
/// none.
pub open spec fn count(row: Seq<i64>, i: int) -> u32 {
    if 0 <= number(row, i) <= u32::MAX {
        number(row, i) as u32
    } else {
        0
    }
}

/// The `i`-th number of a row, a count of microseconds, in seconds.
pub open spec fn micros(row: Seq<i64>, i: int) -> Fixed {
    (count(row, i) * 1000) as Fixed
}

fn number_at(row: &Vec<i64>, i: usize) -> (r: i64)
    ensures
        r == number(row@, i as int),
{
    if i < row.len() {
        row[i]
    } else {
        0
    }
}

fn count_at(row: &Vec<i64>, i: usize) -> (r: u32)
    ensures
        r == count(row@, i as int),
{
    let value: i64 = number_at(row, i);
    if 0 <= value && value <= u32::MAX as i64 {
        value as u32
    } else {
        0
    }
}

fn micros_at(row: &Vec<i64>, i: usize) -> (r: Fixed)
    ensures
        r == micros(row@, i as int),
{
    (count_at(row, i) as i64) * 1000
}

/// What the line of a block holds: its identifier, its length or the
/// identifier of its delay, and the identifiers of its events, in the oldest
/// dialect without an extension.
pub open spec fn block_kinds(dialect: Dialect) -> Seq<Kind> {
    match dialect {
        Dialect::V12 => seq![
            Kind::Whole,
            Kind::Whole,
            Kind::Whole,
            Kind::Whole,
            Kind::Whole,
            Kind::Whole,
            Kind::Whole,
        ],
        _ => seq![
            Kind::Whole,
            Kind::Whole,
            Kind::Whole,
            Kind::Whole,
            Kind::Whole,
            Kind::Whole,
            Kind::Whole,
            Kind::Whole,
        ],
    }
}

/// The block that a row describes.
pub open spec fn block_of(row: Seq<i64>, dialect: Dialect) -> Block {
    Block {
        id: count(row, 0),
        dur: match dialect {
            Dialect::V14 => BlockDuration::Duration(count(row, 1)),
            _ => BlockDuration::DelayId(count(row, 1)),
        },
        rf: count(row, 2),
        gx: count(row, 3),
        gy: count(row, 4),
        gz: count(row, 5),
        adc: count(row, 6),
        ext: count(row, 7),
    }
}

/// What the line of a pulse holds: identifier, amplitude, the identifiers of
/// the shapes of magnitude and phase, in the newest dialect that of the time
/// shape, delay, frequency and phase.
pub open spec fn rf_kinds(dialect: Dialect) -> Seq<Kind> {
    match dialect {
        Dialect::V14 => seq![
            Kind::Whole,
            Kind::Decimal(9),
            Kind::Whole,
            Kind::Whole,
            Kind::Whole,
            Kind::Whole,
            Kind::Decimal(9),
            Kind::Decimal(9),
        ],
        _ => seq![
            Kind::Whole,
            Kind::Decimal(9),
            Kind::Whole,
            Kind::Whole,
            Kind::Whole,
            Kind::Decimal(9),
            Kind::Decimal(9),
        ],
    }
}

/// What may follow on the line of a pulse: in the newest dialect the
/// identifiers of two shapes for parallel transmission, which are not read.
pub open spec fn rf_extra(dialect: Dialect) -> Seq<Kind> {
    match dialect {
        Dialect::V14 => seq![Kind::Whole, Kind::Whole],
        _ => Seq::empty(),
    }
}

/// The pulse that a row describes.
pub open spec fn rf_of(row: Seq<i64>, dialect: Dialect) -> Rf {
    match dialect {
        Dialect::V14 => Rf {
            id: count(row, 0),
            amp: number(row, 1),
            mag_id: count(row, 2),
            phase_id: count(row, 3),
            time_id: count(row, 4),
            delay: micros(row, 5),
            freq: number(row, 6),
            phase: number(row, 7),
        },
        _ => Rf {
            id: count(row, 0),
            amp: number(row, 1),
            mag_id: count(row, 2),
            phase_id: count(row, 3),
            time_id: 0,
            delay: micros(row, 4),
            freq: number(row, 5),
            phase: number(row, 6),
        },
    }
}

/// What the line of an arbitrary gradient holds: identifier, amplitude, the
/// identifier of the shape, in the newest dialect that of the time shape,
/// and delay.
pub open spec fn gradient_kinds(dialect: Dialect) -> Seq<Kind> {
    match dialect {
        Dialect::V14 => seq![Kind::Whole, Kind::Decimal(9), Kind::Whole, Kind::Whole, Kind::Whole],
        _ => seq![Kind::Whole, Kind::Decimal(9), Kind::Whole, Kind::Whole],
    }
}

/// The arbitrary gradient that a row describes.
pub open spec fn gradient_of(row: Seq<i64>, dialect: Dialect) -> Gradient {
    match dialect {
        Dialect::V14 => Gradient {
            id: count(row, 0),
            amp: number(row, 1),
            shape_id: count(row, 2),
            time_id: count(row, 3),
            delay: micros(row, 4),
        },
        _ => Gradient {
            id: count(row, 0),
            amp: number(row, 1),
            shape_id: count(row, 2),
            time_id: 0,
            delay: micros(row, 3),
        },
    }
}

/// What the line of a trapezoid holds: identifier, amplitude, and the times
/// of ramp up, plateau, ramp down and delay.
pub open spec fn trap_kinds() -> Seq<Kind> {
    seq![Kind::Whole, Kind::Decimal(9), Kind::Whole, Kind::Whole, Kind::Whole, Kind::Whole]
}

/// The trapezoid that a row describes.
pub open spec fn trap_of(row: Seq<i64>) -> Trap {
    Trap {
        id: count(row, 0),
        amp: number(row, 1),
        rise: micros(row, 2),
        flat: micros(row, 3),
        fall: micros(row, 4),
        delay: micros(row, 5),
    }
}

/// What the line of a sampling window holds: identifier, number of samples,
/// dwell time in nanoseconds, delay, frequency and phase.
pub open spec fn adc_kinds() -> Seq<Kind> {
    seq![
        Kind::Whole,
        Kind::Whole,
        Kind::Decimal(0),
        Kind::Whole,
        Kind::Decimal(9),
        Kind::Decimal(9),
    ]
}

/// The sampling window that a row describes.
pub open spec fn adc_of(row: Seq<i64>) -> Adc {
    Adc {
        id: count(row, 0),
        num: count(row, 1),
        dwell: number(row, 2),
        delay: micros(row, 3),
        freq: number(row, 4),
        phase: number(row, 5),
    }
}

/// What the line of a delay holds: identifier, and length in microseconds.
pub open spec fn delay_kinds() -> Seq<Kind> {
    seq![Kind::Whole, Kind::Decimal(3)]
}

/// The delay that a row describes.
pub open spec fn delay_of(row: Seq<i64>) -> Delay {
    Delay { id: count(row, 0), delay: number(row, 1) }
}

/// What the line of a reference to an extension holds.
pub open spec fn ext_ref_kinds() -> Seq<Kind> {
    seq![Kind::Whole, Kind::Whole, Kind::Whole, Kind::Whole]
}

/// The reference to an extension that a row describes.
pub open spec fn ext_ref_of(row: Seq<i64>) -> ExtensionRef {
    ExtensionRef {
        id: count(row, 0),
        spec_id: count(row, 1),
        obj_id: count(row, 2),
        next: count(row, 3),
    }
}

pub open spec fn blocks_of(rows: Seq<Seq<i64>>, dialect: Dialect) -> Seq<Block> {
    Seq::new(rows.len(), |i: int| block_of(rows[i], dialect))
}

pub open spec fn rfs_of(rows: Seq<Seq<i64>>, dialect: Dialect) -> Seq<Rf> {
    Seq::new(rows.len(), |i: int| rf_of(rows[i], dialect))
}

pub open spec fn gradients_of(rows: Seq<Seq<i64>>, dialect: Dialect) -> Seq<Gradient> {
    Seq::new(rows.len(), |i: int| gradient_of(rows[i], dialect))
}

pub open spec fn traps_of(rows: Seq<Seq<i64>>) -> Seq<Trap> {
    Seq::new(rows.len(), |i: int| trap_of(rows[i]))
}

pub open spec fn adcs_of(rows: Seq<Seq<i64>>) -> Seq<Adc> {
    Seq::new(rows.len(), |i: int| adc_of(rows[i]))
}

pub open spec fn delays_of(rows: Seq<Seq<i64>>) -> Seq<Delay> {
    Seq::new(rows.len(), |i: int| delay_of(rows[i]))
}

pub open spec fn ext_refs_of(rows: Seq<Seq<i64>>) -> Seq<ExtensionRef> {
    Seq::new(rows.len(), |i: int| ext_ref_of(rows[i]))
}

/// The second dialect wants a section of blocks, pulses or arbitrary
/// gradients to hold a record; the others take it empty.
pub open spec fn least(dialect: Dialect) -> nat {
    match dialect {
        Dialect::V13 => 1,
        _ => 0,
    }
}

/// A section of records: the line of its title, and its records.
pub open spec fn titled_lines(
    text: Seq<char>,
    at: int,
    title: Seq<char>,
    kinds: Seq<Kind>,
    extra: Seq<Kind>,
    least: nat,
) -> Option<(Seq<Seq<i64>>, int)> {
    match tag_newline(text, at, title) {
        Some(start) => if lines(text, start, kinds, extra).0.len() >= least {
            Some(lines(text, start, kinds, extra))
        } else {
            None
        },
        None => None,
    }
}

/// The section of the blocks at `at`.
pub open spec fn blocks_section(text: Seq<char>, at: int, dialect: Dialect) -> Option<
    (SectionModel, int),
> {
    match titled_lines(
        text,
        at,
        "[BLOCKS]"@,
        block_kinds(dialect),
        Seq::empty(),
        least(dialect),
    ) {
        Some((rows, end)) => Some((SectionModel::Blocks(blocks_of(rows, dialect)), end)),
        None => None,
    }
}

/// The section of the pulses at `at`.
pub open spec fn rfs_section(text: Seq<char>, at: int, dialect: Dialect) -> Option<
    (SectionModel, int),
> {
    match titled_lines(
        text,
        at,
        "[RF]"@,
        rf_kinds(dialect),
        rf_extra(dialect),
        least(dialect),
    ) {
        Some((rows, end)) => Some((SectionModel::Rfs(rfs_of(rows, dialect)), end)),
        None => None,
    }
}

/// The section of the arbitrary gradients at `at`.
pub open spec fn gradients_section(text: Seq<char>, at: int, dialect: Dialect) -> Option<
    (SectionModel, int),
> {
    match titled_lines(
        text,
        at,
        "[GRADIENTS]"@,
        gradient_kinds(dialect),
        Seq::empty(),
        least(dialect),
    ) {
        Some((rows, end)) => Some((SectionModel::Gradients(gradients_of(rows, dialect)), end)),
        None => None,
    }
}

/// The section of the trapezoids at `at`.
pub open spec fn traps_section(text: Seq<char>, at: int) -> Option<(SectionModel, int)> {
    match titled_lines(text, at, "[TRAP]"@, trap_kinds(), Seq::empty(), 0) {
        Some((rows, end)) => Some((SectionModel::Traps(traps_of(rows)), end)),
        None => None,
    }
}

/// The section of the sampling windows at `at`.
pub open spec fn adcs_section(text: Seq<char>, at: int) -> Option<(SectionModel, int)> {
    match titled_lines(text, at, "[ADC]"@, adc_kinds(), Seq::empty(), 0) {
        Some((rows, end)) => Some((SectionModel::Adcs(adcs_of(rows)), end)),
        None => None,
    }
}

/// The section of the delays at `at`.
pub open spec fn delays_section(text: Seq<char>, at: int) -> Option<(SectionModel, int)> {
    match titled_lines(text, at, "[DELAYS]"@, delay_kinds(), Seq::empty(), 0) {
        Some((rows, end)) => Some((SectionModel::Delays(delays_of(rows)), end)),
        None => None,
    }
}

fn whole_kinds(n: usize) -> (kinds: Vec<Kind>)
    ensures
        kinds@ == Seq::new(n as nat, |i: int| Kind::Whole),
{
    let mut kinds: Vec<Kind> = Vec::new();
    let mut i: usize = 0;
    while i < n
        invariant
            i <= n,
            kinds@ == Seq::new(i as nat, |j: int| Kind::Whole),
        decreases n - i,
    {
        kinds.push(Kind::Whole);
        assert(kinds@ =~= Seq::new((i + 1) as nat, |j: int| Kind::Whole));
        i = i + 1;
    }
    kinds
}

/// Reads a section of records: the line of its title, and its records.
pub(crate) fn scan_titled_lines(
    text: &Vec<char>,
    at: usize,
    title: &str,
    kinds: &Vec<Kind>,
    extra: &Vec<Kind>,
    least: usize,
) -> (read: Option<(Vec<Vec<i64>>, usize)>)
    requires
        at <= text@.len(),
    ensures
        match read {
            Some((rows, end)) => {
                &&& titled_lines(text@, at as int, title@, kinds@, extra@, least as nat) == Some(
                    (rows_of(rows@), end as int),
                )
                &&& at <= end <= text@.len()
            },
            None => titled_lines(text@, at as int, title@, kinds@, extra@, least as nat) is None,
        },
{
    match tag_nl(text, at, title) {
        Some(start) => {
            let (rows, end) = scan_lines(text, start, kinds, extra);
            assert(rows@.len() == rows_of(rows@).len());
            if rows.len() >= least {
                Some((rows, end))
            } else {
                None
            }
        },
        None => None,
    }
}

fn least_of(dialect: Dialect) -> (n: usize)
    ensures
        n == least(dialect),
{
    match dialect {
        Dialect::V13 => 1,
        _ => 0,
    }
}

/// Reads the section of the blocks at `at`, a place in the text.
fn read_blocks(text: &Vec<char>, at: usize, dialect: Dialect) -> (read: Option<
    (Section, usize),
>)
    requires
        at <= text@.len(),
    ensures
        match read {
            Some((section, end)) => blocks_section(text@, at as int, dialect) == Some(
                (section.model(), end as int),
            ) && at <= end <= text@.len(),
            None => blocks_section(text@, at as int, dialect) is None,
        },
{
    let kinds: Vec<Kind> = match dialect {
        Dialect::V12 => whole_kinds(7),
        _ => whole_kinds(8),
    };
    assert(kinds@ =~= block_kinds(dialect));
    let extra: Vec<Kind> = Vec::new();
    match scan_titled_lines(text, at, "[BLOCKS]", &kinds, &extra, least_of(dialect)) {
        Some((rows, end)) => {
            let mut records: Vec<Block> = Vec::new();
            let mut i: usize = 0;
            while i < rows.len()
                invariant
                    i <= rows@.len(),
                    records@ == blocks_of(rows_of(rows@), dialect).take(i as int),
                decreases rows.len() - i,
            {
                let row: &Vec<i64> = &rows[i];
                let record: Block = Block {
                    id: count_at(row, 0),
                    dur: match dialect {
                        Dialect::V14 => BlockDuration::Duration(count_at(row, 1)),
                        _ => BlockDuration::DelayId(count_at(row, 1)),
                    },
                    rf: count_at(row, 2),
                    gx: count_at(row, 3),
                    gy: count_at(row, 4),
                    gz: count_at(row, 5),
                    adc: count_at(row, 6),
                    ext: count_at(row, 7),
                };
                records.push(record);
                assert(records@ =~= blocks_of(rows_of(rows@), dialect).take(i + 1));
                i = i + 1;
            }
            assert(records@ =~= blocks_of(rows_of(rows@), dialect));
            Some((Section::Blocks(records), end))
        },
        None => None,
    }
}

fn rf_kinds_of(dialect: Dialect) -> (kinds: (Vec<Kind>, Vec<Kind>))
    ensures
        kinds.0@ == rf_kinds(dialect),
        kinds.1@ == rf_extra(dialect),
{
    match dialect {
        Dialect::V14 => {
            let kinds: Vec<Kind> = vec![
                Kind::Whole,
                Kind::Decimal(9),
                Kind::Whole,
                Kind::Whole,
                Kind::Whole,
                Kind::Whole,
                Kind::Decimal(9),
                Kind::Decimal(9),
            ];
            let extra: Vec<Kind> = vec![Kind::Whole, Kind::Whole];
            assert(kinds@ =~= rf_kinds(dialect));
            assert(extra@ =~= rf_extra(dialect));
            (kinds, extra)
        },
        _ => {
            let kinds: Vec<Kind> = vec![
                Kind::Whole,
                Kind::Decimal(9),
                Kind::Whole,
                Kind::Whole,
                Kind::Whole,
                Kind::Decimal(9),
                Kind::Decimal(9),
            ];
            assert(kinds@ =~= rf_kinds(dialect));
            (kinds, Vec::new())
        },
    }
}

/// Reads the section of the pulses at `at`, a place in the text.
fn read_rfs(text: &Vec<char>, at: usize, dialect: Dialect) -> (read: Option<(Section, usize)>)
    requires
        at <= text@.len(),
    ensures
        match read {
            Some((section, end)) => rfs_section(text@, at as int, dialect) == Some(
                (section.model(), end as int),
            ) && at <= end <= text@.len(),
            None => rfs_section(text@, at as int, dialect) is None,
        },
{
    let (kinds, extra) = rf_kinds_of(dialect);
    match scan_titled_lines(text, at, "[RF]", &kinds, &extra, least_of(dialect)) {
        Some((rows, end)) => {
            let mut records: Vec<Rf> = Vec::new();
            let mut i: usize = 0;
            while i < rows.len()
                invariant
                    i <= rows@.len(),
                    records@ == rfs_of(rows_of(rows@), dialect).take(i as int),
                decreases rows.len() - i,
            {
                let row: &Vec<i64> = &rows[i];
                let record: Rf = match dialect {
                    Dialect::V14 => Rf {
                        id: count_at(row, 0),
                        amp: number_at(row, 1),
                        mag_id: count_at(row, 2),
                        phase_id: count_at(row, 3),
                        time_id: count_at(row, 4),
                        delay: micros_at(row, 5),
                        freq: number_at(row, 6),
                        phase: number_at(row, 7),
                    },
                    _ => Rf {
                        id: count_at(row, 0),
                        amp: number_at(row, 1),
                        mag_id: count_at(row, 2),
                        phase_id: count_at(row, 3),
                        time_id: 0,
                        delay: micros_at(row, 4),
                        freq: number_at(row, 5),
                        phase: number_at(row, 6),
                    },
                };
                records.push(record);
                assert(records@ =~= rfs_of(rows_of(rows@), dialect).take(i + 1));
                i = i + 1;
            }
            assert(records@ =~= rfs_of(rows_of(rows@), dialect));
            Some((Section::Rfs(records), end))
        },
        None => None,
    }
}

/// Reads the section of the arbitrary gradients at `at`, a place in the text.
fn read_gradients(text: &Vec<char>, at: usize, dialect: Dialect) -> (read: Option<
    (Section, usize),
>)
    requires
        at <= text@.len(),
    ensures
        match read {
            Some((section, end)) => gradients_section(text@, at as int, dialect) == Some(
                (section.model(), end as int),
            ) && at <= end <= text@.len(),
            None => gradients_section(text@, at as int, dialect) is None,
        },
{
    let kinds: Vec<Kind> = match dialect {
        Dialect::V14 => vec![
            Kind::Whole,
            Kind::Decimal(9),
            Kind::Whole,
            Kind::Whole,
            Kind::Whole,
        ],
        _ => vec![Kind::Whole, Kind::Decimal(9), Kind::Whole, Kind::Whole],
    };
    assert(kinds@ =~= gradient_kinds(dialect));
    let extra: Vec<Kind> = Vec::new();
    match scan_titled_lines(text, at, "[GRADIENTS]", &kinds, &extra, least_of(dialect)) {
        Some((rows, end)) => {
            let mut records: Vec<Gradient> = Vec::new();
            let mut i: usize = 0;
            while i < rows.len()
                invariant
                    i <= rows@.len(),
                    records@ == gradients_of(rows_of(rows@), dialect).take(i as int),
                decreases rows.len() - i,
            {
                let row: &Vec<i64> = &rows[i];
                let record: Gradient = match dialect {
                    Dialect::V14 => Gradient {
                        id: count_at(row, 0),
                        amp: number_at(row, 1),
                        shape_id: count_at(row, 2),
                        time_id: count_at(row, 3),
                        delay: micros_at(row, 4),
                    },
                    _ => Gradient {
                        id: count_at(row, 0),
                        amp: number_at(row, 1),
                        shape_id: count_at(row, 2),
                        time_id: 0,
                        delay: micros_at(row, 3),
                    },
                };
                records.push(record);
                assert(records@ =~= gradients_of(rows_of(rows@), dialect).take(i + 1));
                i = i + 1;
            }
            assert(records@ =~= gradients_of(rows_of(rows@), dialect));
            Some((Section::Gradients(records), end))
        },
        None => None,
    }
}

/// Reads the section of the trapezoids at `at`, a place in the text.
fn read_traps(text: &Vec<char>, at: usize) -> (read: Option<(Section, usize)>)
    requires
        at <= text@.len(),
    ensures
        match read {
            Some((section, end)) => traps_section(text@, at as int) == Some(
                (section.model(), end as int),
            ) && at <= end <= text@.len(),
            None => traps_section(text@, at as int) is None,
        },
{
    let kinds: Vec<Kind> = vec![
        Kind::Whole,
        Kind::Decimal(9),
        Kind::Whole,
        Kind::Whole,
        Kind::Whole,
        Kind::Whole,
    ];
    assert(kinds@ =~= trap_kinds());
    let extra: Vec<Kind> = Vec::new();
    match scan_titled_lines(text, at, "[TRAP]", &kinds, &extra, 0) {
        Some((rows, end)) => {
            let mut records: Vec<Trap> = Vec::new();
            let mut i: usize = 0;
            while i < rows.len()
                invariant
                    i <= rows@.len(),
                    records@ == traps_of(rows_of(rows@)).take(i as int),
                decreases rows.len() - i,
            {
                let row: &Vec<i64> = &rows[i];
                let record: Trap = Trap {
                    id: count_at(row, 0),
                    amp: number_at(row, 1),
                    rise: micros_at(row, 2),
                    flat: micros_at(row, 3),
                    fall: micros_at(row, 4),
                    delay: micros_at(row, 5),
                };
                records.push(record);
                assert(records@ =~= traps_of(rows_of(rows@)).take(i + 1));
                i = i + 1;
            }
            assert(records@ =~= traps_of(rows_of(rows@)));
            Some((Section::Traps(records), end))
        },
        None => None,
    }
}

/// Reads the section of the sampling windows at `at`, a place in the text.
fn read_adcs(text: &Vec<char>, at: usize) -> (read: Option<(Section, usize)>)
    requires
        at <= text@.len(),
    ensures
        match read {
            Some((section, end)) => adcs_section(text@, at as int) == Some(
                (section.model(), end as int),
            ) && at <= end <= text@.len(),
            None => adcs_section(text@, at as int) is None,
        },
{
    let kinds: Vec<Kind> = vec![
        Kind::Whole,
        Kind::Whole,
        Kind::Decimal(0),
        Kind::Whole,
        Kind::Decimal(9),
        Kind::Decimal(9),
    ];
    assert(kinds@ =~= adc_kinds());
    let extra: Vec<Kind> = Vec::new();
    match scan_titled_lines(text, at, "[ADC]", &kinds, &extra, 0) {
        Some((rows, end)) => {
            let mut records: Vec<Adc> = Vec::new();
            let mut i: usize = 0;
            while i < rows.len()
                invariant
                    i <= rows@.len(),
                    records@ == adcs_of(rows_of(rows@)).take(i as int),
                decreases rows.len() - i,
            {
                let row: &Vec<i64> = &rows[i];
                let record: Adc = Adc {
                    id: count_at(row, 0),
                    num: count_at(row, 1),
                    dwell: number_at(row, 2),
                    delay: micros_at(row, 3),
                    freq: number_at(row, 4),
                    phase: number_at(row, 5),
                };
                records.push(record);
                assert(records@ =~= adcs_of(rows_of(rows@)).take(i + 1));
                i = i + 1;
            }
            assert(records@ =~= adcs_of(rows_of(rows@)));
            Some((Section::Adcs(records), end))
        },
        None => None,
    }
}

/// Reads the section of the delays at `at`, a place in the text.
fn read_delays(text: &Vec<char>, at: usize) -> (read: Option<(Section, usize)>)
    requires
        at <= text@.len(),
    ensures
        match read {
            Some((section, end)) => delays_section(text@, at as int) == Some(
                (section.model(), end as int),
            ) && at <= end <= text@.len(),
            None => delays_section(text@, at as int) is None,
        },
{
    let kinds: Vec<Kind> = vec![Kind::Whole, Kind::Decimal(3)];
    assert(kinds@ =~= delay_kinds());
    let extra: Vec<Kind> = Vec::new();
    match scan_titled_lines(text, at, "[DELAYS]", &kinds, &extra, 0) {
        Some((rows, end)) => {
            let mut records: Vec<Delay> = Vec::new();
            let mut i: usize = 0;
            while i < rows.len()
                invariant
                    i <= rows@.len(),
                    records@ == delays_of(rows_of(rows@)).take(i as int),
                decreases rows.len() - i,
            {
                let row: &Vec<i64> = &rows[i];
                let record: Delay = Delay { id: count_at(row, 0), delay: number_at(row, 1) };
                records.push(record);
                assert(records@ =~= delays_of(rows_of(rows@)).take(i + 1));
                i = i + 1;
            }
            assert(records@ =~= delays_of(rows_of(rows@)));
            Some((Section::Delays(records), end))
        },
        None => None,
    }
}

/// The references to extensions that rows describe.
pub(crate) fn ext_refs(rows: &Vec<Vec<i64>>) -> (records: Vec<ExtensionRef>)
    ensures
        records@ == ext_refs_of(rows_of(rows@)),
{
    let mut records: Vec<ExtensionRef> = Vec::new();
    let mut i: usize = 0;
    while i < rows.len()
        invariant
            i <= rows@.len(),
            records@ == ext_refs_of(rows_of(rows@)).take(i as int),
        decreases rows.len() - i,
    {
        let row: &Vec<i64> = &rows[i];
        let record: ExtensionRef = ExtensionRef {
            id: count_at(row, 0),
            spec_id: count_at(row, 1),
            obj_id: count_at(row, 2),
            next: count_at(row, 3),
        };
        records.push(record);
        assert(records@ =~= ext_refs_of(rows_of(rows@)).take(i + 1));
        i = i + 1;
    }
    assert(records@ =~= ext_refs_of(rows_of(rows@)));
    records
}

/// Reads the section of the blocks at `at`.
pub fn blocks(input: &Input, at: usize, dialect: Dialect) -> (read: Option<(Section, usize)>)
    ensures
        match read {
            Some((section, end)) => blocks_section(input@, at as int, dialect) == Some(
                (section.model(), end as int),
            ) && at <= end <= input@.len(),
            None => blocks_section(input@, at as int, dialect) is None,
        },
{
    if at > input.chars().len() {
        None
    } else {
        read_blocks(input.chars(), at, dialect)
    }
}

/// Reads the section of the pulses at `at`.
pub fn rfs(input: &Input, at: usize, dialect: Dialect) -> (read: Option<(Section, usize)>)
    ensures
        match read {
            Some((section, end)) => rfs_section(input@, at as int, dialect) == Some(
                (section.model(), end as int),
            ) && at <= end <= input@.len(),
            None => rfs_section(input@, at as int, dialect) is None,
        },
{
    if at > input.chars().len() {
        None
    } else {
        read_rfs(input.chars(), at, dialect)
    }
}

/// Reads the section of the arbitrary gradients at `at`.
pub fn gradients(input: &Input, at: usize, dialect: Dialect) -> (read: Option<(Section, usize)>)
    ensures
        match read {
            Some((section, end)) => gradients_section(input@, at as int, dialect) == Some(
                (section.model(), end as int),
            ) && at <= end <= input@.len(),
            None => gradients_section(input@, at as int, dialect) is None,
        },
{
    if at > input.chars().len() {
        None
    } else {
        read_gradients(input.chars(), at, dialect)
    }
}

/// Reads the section of the trapezoids at `at`.
pub fn traps(input: &Input, at: usize) -> (read: Option<(Section, usize)>)
    ensures
        match read {
            Some((section, end)) => traps_section(input@, at as int) == Some(
                (section.model(), end as int),
            ) && at <= end <= input@.len(),
            None => traps_section(input@, at as int) is None,
        },
{
    if at > input.chars().len() {
        None
    } else {
        read_traps(input.chars(), at)
    }
}

/// Reads the section of the sampling windows at `at`.
pub fn adcs(input: &Input, at: usize) -> (read: Option<(Section, usize)>)
    ensures
        match read {
            Some((section, end)) => adcs_section(input@, at as int) == Some(
                (section.model(), end as int),
            ) && at <= end <= input@.len(),
            None => adcs_section(input@, at as int) is None,
        },
{
    if at > input.chars().len() {
        None
    } else {
        read_adcs(input.chars(), at)
    }
}

/// Reads the section of the delays at `at`.
pub fn delays(input: &Input, at: usize) -> (read: Option<(Section, usize)>)
    ensures
        match read {
            Some((section, end)) => delays_section(input@, at as int) == Some(
                (section.model(), end as int),
            ) && at <= end <= input@.len(),
            None => delays_section(input@, at as int) is None,
        },
{
    if at > input.chars().len() {
        None
    } else {
        read_delays(input.chars(), at)
    }
}

} // verus!

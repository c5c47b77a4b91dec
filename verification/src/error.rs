//! The failures that resolution reports.

use vstd::prelude::*;
use crate::fixed::Fixed;
use crate::parse_file::{Version, VersionModel};

verus! {

/// Why a compressed shape could not be decompressed.
#[derive(Debug, Clone, Copy, PartialEq, Eq, Structural)]
pub enum ShapeDecompressionError {
    /// The sample at `index` stands where a run length is expected, but has a
    /// fractional part.
    RleCountIsNotInteger { index: usize, value: Fixed },
    /// The samples decode to `count` values where `expected` were announced.
    WrongDecompressedCount { count: usize, expected: usize },
}

/// The slot of a block that an event fills.
#[derive(Debug, Clone, Copy, PartialEq, Eq, Structural)]
pub enum EventType {
    Rf,
    Gx,
    Gy,
    Gz,
    Adc,
    Delay,
}

impl EventType {
    /// The name under which the slot appears in messages.
    pub fn name(&self) -> (r: &'static str)
        ensures
            r@ == match *self {
                EventType::Rf => "RF"@,
                EventType::Gx => "GX"@,
                EventType::Gy => "GY"@,
                EventType::Gz => "GZ"@,
                EventType::Adc => "ADC"@,
                EventType::Delay => "Delay"@,
            },
    {
        match self {
            EventType::Rf => "RF",
            EventType::Gx => "GX",
            EventType::Gy => "GY",
            EventType::Gz => "GZ",
            EventType::Adc => "ADC",
            EventType::Delay => "Delay",
        }
    }
}

/// A rule of timing or shape that a resolved sequence breaks.
#[derive(Debug, Clone, Copy, PartialEq, Eq, Structural)]
pub enum ValidationError {
    /// An event lasts `dur`, longer than the `block_dur` of its block.
    EventTooLong { ty: EventType, block_id: u32, dur: i128, block_dur: i128 },
    /// The two shapes of an event differ in length.
    ShapeMismatch { ty: EventType, block_id: u32, length_1: usize, length_2: usize },
    /// A delay, a ramp or a dwell time is below zero.
    NegativeTiming { ty: EventType, block_id: u32, timing: Fixed },
}

/// A kind of section whose records carry identifiers.
#[derive(Debug, Clone, Copy, PartialEq, Eq, Structural)]
pub enum SectionType {
    Shapes,
    Delays,
    Adcs,
    Rfs,
    Gradients,
    Traps,
}

impl SectionType {
    /// The name under which the kind appears in messages.
    pub fn name(&self) -> (r: &'static str)
        ensures
            r@ == match *self {
                SectionType::Shapes => "Shapes"@,
                SectionType::Delays => "Delays"@,
                SectionType::Adcs => "Adcs"@,
                SectionType::Rfs => "Rfs"@,
                SectionType::Gradients => "Gradients"@,
                SectionType::Traps => "Traps"@,
            },
    {
        match self {
            SectionType::Shapes => "Shapes",
            SectionType::Delays => "Delays",
            SectionType::Adcs => "Adcs",
            SectionType::Rfs => "Rfs",
            SectionType::Gradients => "Gradients",
            SectionType::Traps => "Traps",
        }
    }
}

/// Why a text is not a number.
#[derive(Debug, Clone, Copy, PartialEq, Eq, Structural)]
pub enum ParseFloatError {
    /// The text is empty.
    Empty,
    /// The text is not a finite decimal number in the range of [`Fixed`].
    Invalid,
}

/// Why a field of view could not be read.
#[derive(Debug, Clone, Copy, PartialEq, Eq, Structural)]
pub enum ParseFovError {
    ParseFloat(ParseFloatError),
    /// The value holds this many numbers, not three.
    WrongValueCount(usize),
}

/// A raster time that the definitions of a 1.4 file must give, and do not.
#[derive(Debug, Clone, Copy, PartialEq, Eq, Structural)]
pub enum MissingDefinition {
    GradientRasterTime,
    RadiofrequencyRasterTime,
    AdcRasterTime,
    BlockDurationRaster,
}

/// Why a list of sections is not a sequence.
#[derive(Debug, Clone, Copy, PartialEq, Eq, Structural)]
pub enum ConversionError {
    /// The list holds this many version sections, not one.
    VersionSectionCount(usize),
    /// Two records of this kind share an identifier.
    EventIdReuse(SectionType),
    /// An arbitrary gradient and a trapezoid share an identifier.
    GradTrapIdReuse,
    /// A key is defined twice.
    NonUniqueDefinition,
    /// A block names an event that no section declares.
    BrokenRef { ty: EventType, id: u32 },
    MissingDefinition(MissingDefinition),
    ParseFovError(ParseFovError),
    ParseFloat(ParseFloatError),
    /// An event names a shape that no section declares.
    ShapeNotFound(u32),
    /// A shape is declared under the identifier zero, which means "none".
    ShapeIndexZero,
    /// A shape and its time shape differ in length.
    TimeShapeMismatch { shape_len: usize, time_len: usize },
    /// A time shape holds a value with a fractional part.
    TimeShapeNonInteger,
    /// An entry of a time shape names no later raster step than the entry
    /// before it.
    TimeShapeNonIncreasing,
}

/// Why a text is not a file.
#[derive(Debug, PartialEq, Eq)]
pub enum ParseError {
    /// The text does not follow the grammar.
    Syntax,
    /// The file is written in a dialect that cannot be read.
    UnsupportedVersion(Version),
    /// A shape cannot be decompressed.
    ShapeDecompressionError(ShapeDecompressionError),
}

/// What a [`ParseError`] says.
pub enum ParseErrorModel {
    Syntax,
    UnsupportedVersion(VersionModel),
    ShapeDecompressionError(ShapeDecompressionError),
}

impl ParseError {
    pub open spec fn model(&self) -> ParseErrorModel {
        match *self {
            ParseError::Syntax => ParseErrorModel::Syntax,
            ParseError::UnsupportedVersion(version) => ParseErrorModel::UnsupportedVersion(
                version.model(),
            ),
            ParseError::ShapeDecompressionError(e) => ParseErrorModel::ShapeDecompressionError(e),
        }
    }
}

/// Any failure on the way from a text to a sequence.
#[derive(Debug, PartialEq, Eq)]
pub enum Error {
    ParseError(ParseError),
    ValidationError(ValidationError),
    ConversionError(ConversionError),
}

} // verus!

//! Pulseq sequence descriptions, read and resolved.
//!
//! A file is read into its sections by [`parse_file`]. The sections are
//! resolved into a [`Sequence`] by [`sequence::from_raw::from_raw`]:
//! identifiers become events that blocks share, shapes are decompressed and
//! laid out along their time shapes, and each block gets its length. The
//! sequence is then checked against the rules of timing and shape by
//! [`Sequence::validate`]. [`Sequence::from_source`] does all of it.
//!
//! The crate works in exact arithmetic. Every real quantity of a file, a
//! time in seconds or an amplitude in hertz, is a fixed-point number, see
//! [`fixed`]; how the numerals of a file become such numbers is laid down in
//! [`number`]. Each function states what it returns in terms of the text or
//! the records that it is given, and is proved to return that.

pub mod error;
pub mod fixed;
pub mod number;
pub mod parse_file;
pub mod sequence;

pub use error::Error;
pub use parse_file::parse_file;
pub use sequence::{Adc, Block, Gradient, Rf, Sequence, Shape, TimeRaster};

//! A resolved sequence: blocks that hold their events, events that hold their
//! shapes.

use vstd::prelude::*;
use std::sync::Arc;
use crate::error::{EventType, ValidationError};
use crate::fixed::Fixed;

pub mod blocks;
pub mod definitions;
pub mod display;
pub mod events;
pub mod extract;
pub mod from_raw;
pub mod shapes;
pub mod tables;
pub mod validate;

verus! {

/// A sequence, ready to be played block by block.
#[derive(Debug)]
pub struct Sequence {
    pub time_raster: TimeRaster,
    pub name: Option<String>,
    /// In metres.
    pub fov: Option<(Fixed, Fixed, Fixed)>,
    /// The definitions that this crate gives no meaning to, keys with their
    /// values, in the order of the file. No key stands twice.
    pub definitions: Vec<(String, String)>,
    pub blocks: Vec<Block>,
}

/// The time steps, in seconds, on which the parts of a sequence are laid out.
#[derive(Debug, Clone, Copy, PartialEq, Eq, Structural)]
pub struct TimeRaster {
    pub grad: Fixed,
    pub rf: Fixed,
    pub adc: Fixed,
    pub block: Fixed,
}

impl TimeRaster {
    /// The rasters that hold where a file gives none: 10 us for gradients,
    /// 1 us for pulses, 0.1 us for sampling and 10 us for blocks.
    pub open spec fn fallback() -> TimeRaster {
        TimeRaster { grad: 10_000, rf: 1_000, adc: 100, block: 10_000 }
    }
}

impl Default for TimeRaster {
    fn default() -> (r: Self)
        ensures
            r == TimeRaster::fallback(),
    {
        TimeRaster { grad: 10_000, rf: 1_000, adc: 100, block: 10_000 }
    }
}

/// One slot of the timeline. Blocks that name the same event share it.
#[derive(Debug)]
pub struct Block {
    pub id: u32,
    /// In seconds.
    pub duration: i128,
    pub rf: Option<Arc<Rf>>,
    pub gx: Option<Arc<Gradient>>,
    pub gy: Option<Arc<Gradient>>,
    pub gz: Option<Arc<Gradient>>,
    pub adc: Option<Arc<Adc>>,
}

/// A radio-frequency pulse.
#[derive(Debug)]
pub struct Rf {
    /// In hertz.
    pub amp: Fixed,
    /// In radians.
    pub phase: Fixed,
    /// In seconds.
    pub delay: Fixed,
    /// In hertz.
    pub freq: Fixed,
    pub amp_shape: Arc<Shape>,
    pub phase_shape: Arc<Shape>,
}

/// A gradient on one axis.
#[derive(Debug)]
pub enum Gradient {
    /// An arbitrary waveform.
    Free {
        /// In hertz per metre.
        amp: Fixed,
        /// In seconds.
        delay: Fixed,
        shape: Arc<Shape>,
    },
    /// A trapezoid.
    Trap {
        /// In hertz per metre.
        amp: Fixed,
        /// In seconds.
        rise: Fixed,
        /// In seconds.
        flat: Fixed,
        /// In seconds.
        fall: Fixed,
        /// In seconds.
        delay: Fixed,
    },
}

/// A sampling window.
#[derive(Debug, Clone, Copy, PartialEq, Eq, Structural)]
pub struct Adc {
    pub num: u32,
    /// In seconds.
    pub dwell: Fixed,
    /// In seconds.
    pub delay: Fixed,
    /// In hertz.
    pub freq: Fixed,
    /// In radians.
    pub phase: Fixed,
}

/// The samples of a waveform, one per raster step.
#[derive(Debug)]
pub struct Shape(pub Vec<Fixed>);

/// By how much an event may outlast its block. The slack of 2.2e-16 s that
/// rounding errors are granted elsewhere is less than one fixed-point unit,
/// and exact durations need none.
pub const TOLERANCE: i128 = 0;

/// A count of raster steps, times the raster, stays within 128 bits.
proof fn lemma_steps_in_range(count: int, raster: int)
    requires
        0 <= count <= u64::MAX,
        i64::MIN <= raster <= i64::MAX,
    ensures
        -0x8000_0000_0000_0000 * 0xffff_ffff_ffff_ffff <= count * raster,
        count * raster <= 0x7fff_ffff_ffff_ffff * 0xffff_ffff_ffff_ffff,
{
    assert(-0x8000_0000_0000_0000 * 0xffff_ffff_ffff_ffff <= count * raster
        <= 0x7fff_ffff_ffff_ffff * 0xffff_ffff_ffff_ffff) by (nonlinear_arith)
        requires
            0 <= count <= 0xffff_ffff_ffff_ffff,
            -0x8000_0000_0000_0000 <= raster <= 0x7fff_ffff_ffff_ffff,
    ;
}

/// `delay + count * raster`, exactly.
fn delayed_steps(delay: Fixed, count: u64, raster: Fixed) -> (r: i128)
    ensures
        r == delay + count * raster,
{
    proof {
        lemma_steps_in_range(count as int, raster as int);
    }
    (delay as i128) + (count as i128) * (raster as i128)
}

impl Rf {
    /// The time from the start of the block to the end of the pulse: the
    /// delay, and one raster step per sample.
    pub open spec fn spec_duration(&self, rf_raster: Fixed) -> int {
        self.delay + self.amp_shape.0@.len() * rf_raster
    }

    /// The rule that a pulse breaks, if any: its two shapes differ in length,
    /// or its delay is below zero.
    pub open spec fn defect(&self, block_id: u32) -> Option<ValidationError> {
        if self.phase_shape.0@.len() != self.amp_shape.0@.len() {
            Some(
                ValidationError::ShapeMismatch {
                    ty: EventType::Rf,
                    block_id,
                    length_1: self.phase_shape.0@.len() as usize,
                    length_2: self.amp_shape.0@.len() as usize,
                },
            )
        } else if self.delay < 0 {
            Some(
                ValidationError::NegativeTiming {
                    ty: EventType::Rf,
                    block_id,
                    timing: self.delay,
                },
            )
        } else {
            None
        }
    }

    pub fn duration(&self, rf_raster: Fixed) -> (r: i128)
        ensures
            r == self.spec_duration(rf_raster),
    {
        delayed_steps(self.delay, self.amp_shape.0.len() as u64, rf_raster)
    }

    /// Checks the pulse against the rules; `block_id` is named in the error.
    pub fn validate(&self, block_id: u32) -> (r: Result<(), ValidationError>)
        ensures
            r == match self.defect(block_id) {
                Some(e) => Err::<(), ValidationError>(e),
                None => Ok(()),
            },
    {
        if self.phase_shape.0.len() != self.amp_shape.0.len() {
            Err(
                ValidationError::ShapeMismatch {
                    ty: EventType::Rf,
                    block_id,
                    length_1: self.phase_shape.0.len(),
                    length_2: self.amp_shape.0.len(),
                },
            )
        } else if self.delay < 0 {
            Err(
                ValidationError::NegativeTiming {
                    ty: EventType::Rf,
                    block_id,
                    timing: self.delay,
                },
            )
        } else {
            Ok(())
        }
    }
}

impl Gradient {
    /// The time from the start of the block to the end of the gradient: the
    /// delay, and one raster step per sample or the three parts of the
    /// trapezoid.
    pub open spec fn spec_duration(&self, grad_raster: Fixed) -> int {
        match *self {
            Gradient::Free { delay, shape, .. } => delay + shape.0@.len() * grad_raster,
            Gradient::Trap { rise, flat, fall, delay, .. } => delay + rise + flat + fall,
        }
    }

    pub open spec fn spec_delay(&self) -> Fixed {
        match *self {
            Gradient::Free { delay, .. } => delay,
            Gradient::Trap { delay, .. } => delay,
        }
    }

    /// The first time of the gradient that is below zero, if any: of the
    /// ramp up, the plateau, the ramp down and the delay, in this order.
    pub open spec fn negative_timing(&self) -> Option<Fixed> {
        match *self {
            Gradient::Free { delay, .. } => if delay < 0 {
                Some(delay)
            } else {
                None
            },
            Gradient::Trap { rise, flat, fall, delay, .. } => if rise < 0 {
                Some(rise)
            } else if flat < 0 {
                Some(flat)
            } else if fall < 0 {
                Some(fall)
            } else if delay < 0 {
                Some(delay)
            } else {
                None
            },
        }
    }

    /// The rule that a gradient breaks, if any.
    pub open spec fn defect(&self, ty: EventType, block_id: u32) -> Option<ValidationError> {
        match self.negative_timing() {
            Some(timing) => Some(ValidationError::NegativeTiming { ty, block_id, timing }),
            None => None,
        }
    }

    pub fn duration(&self, grad_raster: Fixed) -> (r: i128)
        ensures
            r == self.spec_duration(grad_raster),
    {
        match self {
            Gradient::Free { delay, shape, .. } => delayed_steps(
                *delay,
                shape.0.len() as u64,
                grad_raster,
            ),
            Gradient::Trap { rise, flat, fall, delay, .. } => (*delay as i128) + (*rise as i128) + (
            *flat as i128) + (*fall as i128),
        }
    }

    #[verifier::when_used_as_spec(spec_delay)]
    pub fn delay(&self) -> (r: Fixed)
        ensures
            r == self.spec_delay(),
    {
        match self {
            Gradient::Free { delay, .. } => *delay,
            Gradient::Trap { delay, .. } => *delay,
        }
    }

    /// Checks the gradient against the rules; `ty` and `block_id` are named in
    /// the error.
    pub fn validate(&self, ty: EventType, block_id: u32) -> (r: Result<(), ValidationError>)
        ensures
            r == match self.defect(ty, block_id) {
                Some(e) => Err::<(), ValidationError>(e),
                None => Ok(()),
            },
    {
        match self {
            Gradient::Free { delay, .. } => {
                if *delay < 0 {
                    Err(ValidationError::NegativeTiming { ty, block_id, timing: *delay })
                } else {
                    Ok(())
                }
            },
            Gradient::Trap { rise, flat, fall, delay, .. } => {
                if *rise < 0 {
                    Err(ValidationError::NegativeTiming { ty, block_id, timing: *rise })
                } else if *flat < 0 {
                    Err(ValidationError::NegativeTiming { ty, block_id, timing: *flat })
                } else if *fall < 0 {
                    Err(ValidationError::NegativeTiming { ty, block_id, timing: *fall })
                } else if *delay < 0 {
                    Err(ValidationError::NegativeTiming { ty, block_id, timing: *delay })
                } else {
                    Ok(())
                }
            },
        }
    }
}

impl Adc {
    /// The time from the start of the block to the last sample: the delay,
    /// and one dwell time per sample.
    pub open spec fn spec_duration(&self) -> int {
        self.delay + self.num * self.dwell
    }

    /// The rule that a sampling window breaks, if any: its dwell time or its
    /// delay is below zero.
    pub open spec fn defect(&self, block_id: u32) -> Option<ValidationError> {
        if self.dwell < 0 {
            Some(
                ValidationError::NegativeTiming {
                    ty: EventType::Adc,
                    block_id,
                    timing: self.dwell,
                },
            )
        } else if self.delay < 0 {
            Some(
                ValidationError::NegativeTiming {
                    ty: EventType::Adc,
                    block_id,
                    timing: self.delay,
                },
            )
        } else {
            None
        }
    }

    pub fn duration(&self) -> (r: i128)
        ensures
            r == self.spec_duration(),
    {
        delayed_steps(self.delay, self.num as u64, self.dwell)
    }

    /// Checks the sampling window against the rules; `block_id` is named in
    /// the error.
    pub fn validate(&self, block_id: u32) -> (r: Result<(), ValidationError>)
        ensures
            r == match self.defect(block_id) {
                Some(e) => Err::<(), ValidationError>(e),
                None => Ok(()),
            },
    {
        if self.dwell < 0 {
            Err(
                ValidationError::NegativeTiming {
                    ty: EventType::Adc,
                    block_id,
                    timing: self.dwell,
                },
            )
        } else if self.delay < 0 {
            Err(
                ValidationError::NegativeTiming {
                    ty: EventType::Adc,
                    block_id,
                    timing: self.delay,
                },
            )
        } else {
            Ok(())
        }
    }
}

} // verus!

//! The rules of timing and shape that a resolved sequence must keep.

use vstd::prelude::*;
use std::sync::Arc;
use crate::error::{EventType, ValidationError};
use crate::sequence::blocks::{adc_end, first_of, gradient_end, rf_end};
use crate::sequence::{Adc, Block, Gradient, Rf, Sequence, TimeRaster, TOLERANCE};

verus! {

/// The error of an event that ends at `end`, later than its block allows.
pub open spec fn overlong(ty: EventType, block: Block, end: Option<int>) -> Option<
    ValidationError,
> {
    match end {
        Some(dur) => if dur > block.duration + TOLERANCE {
            Some(
                ValidationError::EventTooLong {
                    ty,
                    block_id: block.id,
                    dur: dur as i128,
                    block_dur: block.duration,
                },
            )
        } else {
            None
        },
        None => None,
    }
}

/// The rule that a pulse breaks, if there is a pulse.
pub open spec fn rf_defect(rf: Option<Arc<Rf>>, block_id: u32) -> Option<ValidationError> {
    match rf {
        Some(rf) => rf.defect(block_id),
        None => None,
    }
}

/// The rule that a gradient breaks, if there is a gradient.
pub open spec fn gradient_defect(gradient: Option<Arc<Gradient>>, ty: EventType, block_id: u32)
    -> Option<ValidationError> {
    match gradient {
        Some(gradient) => gradient.defect(ty, block_id),
        None => None,
    }
}

/// The rule that a sampling window breaks, if there is a window.
pub open spec fn adc_defect(adc: Option<Arc<Adc>>, block_id: u32) -> Option<ValidationError> {
    match adc {
        Some(adc) => adc.defect(block_id),
        None => None,
    }
}

impl Block {
    /// The first event that outlasts the block, in the order pulse,
    /// gradients on x, y and z, sampling window.
    pub open spec fn overlong_event(&self, raster: TimeRaster) -> Option<ValidationError> {
        first_of(
            overlong(EventType::Rf, *self, rf_end(self.rf, raster.rf)),
            first_of(
                overlong(EventType::Gx, *self, gradient_end(self.gx, raster.grad)),
                first_of(
                    overlong(EventType::Gy, *self, gradient_end(self.gy, raster.grad)),
                    first_of(
                        overlong(EventType::Gz, *self, gradient_end(self.gz, raster.grad)),
                        overlong(EventType::Adc, *self, adc_end(self.adc)),
                    ),
                ),
            ),
        )
    }

    /// The first rule that an event of the block breaks by itself, in the
    /// same order.
    pub open spec fn defective_event(&self) -> Option<ValidationError> {
        first_of(
            rf_defect(self.rf, self.id),
            first_of(
                gradient_defect(self.gx, EventType::Gx, self.id),
                first_of(
                    gradient_defect(self.gy, EventType::Gy, self.id),
                    first_of(
                        gradient_defect(self.gz, EventType::Gz, self.id),
                        adc_defect(self.adc, self.id),
                    ),
                ),
            ),
        )
    }

    /// Checks that no event outlasts the block.
    pub fn check_durations(&self, raster: &TimeRaster) -> (r: Result<(), ValidationError>)
        ensures
            r == match self.overlong_event(*raster) {
                Some(e) => Err::<(), ValidationError>(e),
                None => Ok(()),
            },
    {
        match &self.rf {
            Some(rf) => {
                let dur: i128 = rf.duration(raster.rf);
                if dur > self.duration + TOLERANCE {
                    return Err(
                        ValidationError::EventTooLong {
                            ty: EventType::Rf,
                            block_id: self.id,
                            dur,
                            block_dur: self.duration,
                        },
                    );
                }
            },
            None => {},
        }
        match &self.gx {
            Some(gx) => {
                let dur: i128 = gx.duration(raster.grad);
                if dur > self.duration + TOLERANCE {
                    return Err(
                        ValidationError::EventTooLong {
                            ty: EventType::Gx,
                            block_id: self.id,
                            dur,
                            block_dur: self.duration,
                        },
                    );
                }
            },
            None => {},
        }
        match &self.gy {
            Some(gy) => {
                let dur: i128 = gy.duration(raster.grad);
                if dur > self.duration + TOLERANCE {
                    return Err(
                        ValidationError::EventTooLong {
                            ty: EventType::Gy,
                            block_id: self.id,
                            dur,
                            block_dur: self.duration,
                        },
                    );
                }
            },
            None => {},
        }
        match &self.gz {
            Some(gz) => {
                let dur: i128 = gz.duration(raster.grad);
                if dur > self.duration + TOLERANCE {
                    return Err(
                        ValidationError::EventTooLong {
                            ty: EventType::Gz,
                            block_id: self.id,
                            dur,
                            block_dur: self.duration,
                        },
                    );
                }
            },
            None => {},
        }
        match &self.adc {
            Some(adc) => {
                let dur: i128 = adc.duration();
                if dur > self.duration + TOLERANCE {
                    return Err(
                        ValidationError::EventTooLong {
                            ty: EventType::Adc,
                            block_id: self.id,
                            dur,
                            block_dur: self.duration,
                        },
                    );
                }
            },
            None => {},
        }
        Ok(())
    }

    /// Checks each event of the block against the rules that it must keep
    /// by itself.
    pub fn check_events(&self) -> (r: Result<(), ValidationError>)
        ensures
            r == match self.defective_event() {
                Some(e) => Err::<(), ValidationError>(e),
                None => Ok(()),
            },
    {
        match &self.rf {
            Some(rf) => match rf.validate(self.id) {
                Ok(()) => {},
                Err(e) => {
                    return Err(e);
                },
            },
            None => {},
        }
        match &self.gx {
            Some(gx) => match gx.validate(EventType::Gx, self.id) {
                Ok(()) => {},
                Err(e) => {
                    return Err(e);
                },
            },
            None => {},
        }
        match &self.gy {
            Some(gy) => match gy.validate(EventType::Gy, self.id) {
                Ok(()) => {},
                Err(e) => {
                    return Err(e);
                },
            },
            None => {},
        }
        match &self.gz {
            Some(gz) => match gz.validate(EventType::Gz, self.id) {
                Ok(()) => {},
                Err(e) => {
                    return Err(e);
                },
            },
            None => {},
        }
        match &self.adc {
            Some(adc) => match adc.validate(self.id) {
                Ok(()) => {},
                Err(e) => {
                    return Err(e);
                },
            },
            None => {},
        }
        Ok(())
    }
}

impl Block {
    /// The first rule that the block breaks: an event that outlasts the
    /// block comes before an event that is at fault by itself.
    pub open spec fn violation(&self, raster: TimeRaster) -> Option<ValidationError> {
        first_of(self.overlong_event(raster), self.defective_event())
    }

    /// Checks the block against the rules of timing and shape.
    pub fn validate(&self, raster: &TimeRaster) -> (r: Result<(), ValidationError>)
        ensures
            r == match self.violation(*raster) {
                Some(e) => Err::<(), ValidationError>(e),
                None => Ok(()),
            },
    {
        match self.check_durations(raster) {
            Ok(()) => self.check_events(),
            Err(e) => Err(e),
        }
    }
}

/// The first rule that one of the first `n` blocks breaks, in the order of
/// the blocks.
pub open spec fn first_violation(blocks: Seq<Block>, raster: TimeRaster, n: int) -> Option<
    ValidationError,
>
    decreases n,
{
    if n <= 0 {
        None
    } else {
        first_of(first_violation(blocks, raster, n - 1), blocks[n - 1].violation(raster))
    }
}

/// A violation found among the first `n` blocks is the one found among all.
pub proof fn lemma_first_violation_stays(blocks: Seq<Block>, raster: TimeRaster, n: int, m: int)
    requires
        0 <= n <= m,
        first_violation(blocks, raster, n) is Some,
    ensures
        first_violation(blocks, raster, m) == first_violation(blocks, raster, n),
    decreases m - n,
{
    if n < m {
        lemma_first_violation_stays(blocks, raster, n, m - 1);
    }
}

impl Sequence {
    /// The first rule that the sequence breaks: the blocks are taken one by
    /// one in their order, and in each block an event that outlasts the
    /// block comes before an event that is at fault by itself.
    pub open spec fn violation(&self) -> Option<ValidationError> {
        first_violation(self.blocks@, self.time_raster, self.blocks@.len() as int)
    }

    /// Checks the sequence against the rules of timing and shape, block by
    /// block, and reports the first that it breaks.
    pub fn validate(&self) -> (r: Result<(), ValidationError>)
        ensures
            r == match self.violation() {
                Some(e) => Err::<(), ValidationError>(e),
                None => Ok(()),
            },
    {
        let mut i: usize = 0;
        while i < self.blocks.len()
            invariant
                i <= self.blocks@.len(),
                first_violation(self.blocks@, self.time_raster, i as int) is None,
            decreases self.blocks.len() - i,
        {
            match self.blocks[i].validate(&self.time_raster) {
                Ok(()) => {},
                Err(e) => {
                    proof {
                        lemma_first_violation_stays(
                            self.blocks@,
                            self.time_raster,
                            i + 1,
                            self.blocks@.len() as int,
                        );
                    }
                    return Err(e);
                },
            }
            i = i + 1;
        }
        Ok(())
    }
}

} // verus!

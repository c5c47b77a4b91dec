//! Blocks: from the identifiers in a record to the events themselves, and the
//! length of the block.

use vstd::prelude::*;
use std::collections::HashMap;
use std::sync::Arc;
use crate::error::{ConversionError, EventType};
use crate::fixed::Fixed;
use crate::parse_file;
use crate::parse_file::BlockDuration;
use crate::sequence::{Adc, Block, Gradient, Rf, TimeRaster};

verus! {

/// The first of two findings.
pub open spec fn first_of<E>(a: Option<E>, b: Option<E>) -> Option<E> {
    match a {
        Some(_) => a,
        None => b,
    }
}

/// The later of two ends; an event that is absent has none.
pub open spec fn later(a: Option<int>, b: Option<int>) -> Option<int> {
    match (a, b) {
        (None, _) => b,
        (_, None) => a,
        (Some(x), Some(y)) => Some(if x >= y { x } else { y }),
    }
}

/// What the identifier `id` names in `table`; zero names nothing.
pub open spec fn slot<V>(table: Map<u32, V>, id: u32) -> Option<V> {
    if id != 0 && table.contains_key(id) {
        Some(table[id])
    } else {
        None
    }
}

/// The error of an identifier that names nothing among `ids`, unless it is
/// zero.
pub open spec fn broken(ids: Set<u32>, ty: EventType, id: u32) -> Option<ConversionError> {
    if id != 0 && !ids.contains(id) {
        Some(ConversionError::BrokenRef { ty, id })
    } else {
        None
    }
}

/// The identifier of the delay that a block names, or zero.
pub open spec fn delay_id(dur: BlockDuration) -> u32 {
    match dur {
        BlockDuration::DelayId(id) => id,
        BlockDuration::Duration(_) => 0,
    }
}

/// The first identifier of a block that names nothing, in the order pulse,
/// gradients on x, y and z, sampling window, delay.
pub open spec fn block_failure(
    raw: parse_file::Block,
    rfs: Set<u32>,
    gradients: Set<u32>,
    adcs: Set<u32>,
    delays: Set<u32>,
) -> Option<ConversionError> {
    first_of(
        broken(rfs, EventType::Rf, raw.rf),
        first_of(
            broken(gradients, EventType::Gx, raw.gx),
            first_of(
                broken(gradients, EventType::Gy, raw.gy),
                first_of(
                    broken(gradients, EventType::Gz, raw.gz),
                    first_of(
                        broken(adcs, EventType::Adc, raw.adc),
                        broken(delays, EventType::Delay, delay_id(raw.dur)),
                    ),
                ),
            ),
        ),
    )
}

/// The end of an event, if there is one.
pub open spec fn rf_end(rf: Option<Arc<Rf>>, raster: Fixed) -> Option<int> {
    match rf {
        Some(rf) => Some(rf.spec_duration(raster)),
        None => None,
    }
}

/// The end of a gradient, if there is one.
pub open spec fn gradient_end(gradient: Option<Arc<Gradient>>, raster: Fixed) -> Option<int> {
    match gradient {
        Some(gradient) => Some(gradient.spec_duration(raster)),
        None => None,
    }
}

/// The end of a sampling window, if there is one.
pub open spec fn adc_end(adc: Option<Arc<Adc>>) -> Option<int> {
    match adc {
        Some(adc) => Some(adc.spec_duration()),
        None => None,
    }
}

/// The end of a delay, if there is one.
pub open spec fn delay_end(delay: Option<Fixed>) -> Option<int> {
    match delay {
        Some(delay) => Some(delay as int),
        None => None,
    }
}

impl Block {
    /// The latest end among the events of the block; none where it has no
    /// event.
    pub open spec fn longest_event(&self, raster: TimeRaster) -> Option<int> {
        later(
            later(
                later(
                    later(rf_end(self.rf, raster.rf), gradient_end(self.gx, raster.grad)),
                    gradient_end(self.gy, raster.grad),
                ),
                gradient_end(self.gz, raster.grad),
            ),
            adc_end(self.adc),
        )
    }
}

/// The length of a block that lasts as long as its events and its delay:
/// the latest end among them, and zero where there are none.
pub open spec fn longest(block: Block, delay: Option<Fixed>, raster: TimeRaster) -> int {
    match later(block.longest_event(raster), delay_end(delay)) {
        Some(end) => end,
        None => 0,
    }
}

/// The length of a block: as many block rasters as it says, or as long as its
/// events and the delay that it names.
pub open spec fn block_duration(
    dur: BlockDuration,
    block: Block,
    delays: Map<u32, Fixed>,
    raster: TimeRaster,
) -> int {
    match dur {
        BlockDuration::Duration(units) => units * raster.block,
        BlockDuration::DelayId(id) => longest(block, slot(delays, id), raster),
    }
}

/// A block that lasts as long as its events lasts as long as one of them and
/// no shorter than any; a block without events has no length.
pub proof fn lemma_longest_is_maximum(block: Block, delay: Option<Fixed>, raster: TimeRaster)
    ensures
        block.rf is Some ==> longest(block, delay, raster) >= block.rf->Some_0.spec_duration(
            raster.rf,
        ),
        block.gx is Some ==> longest(block, delay, raster) >= block.gx->Some_0.spec_duration(
            raster.grad,
        ),
        block.gy is Some ==> longest(block, delay, raster) >= block.gy->Some_0.spec_duration(
            raster.grad,
        ),
        block.gz is Some ==> longest(block, delay, raster) >= block.gz->Some_0.spec_duration(
            raster.grad,
        ),
        block.adc is Some ==> longest(block, delay, raster) >= block.adc->Some_0.spec_duration(),
        delay is Some ==> longest(block, delay, raster) >= delay->Some_0,
        block.rf is None && block.gx is None && block.gy is None && block.gz is None && block.adc
            is None && delay is None ==> longest(block, delay, raster) == 0,
        ({
            ||| block.rf is Some && longest(block, delay, raster)
                == block.rf->Some_0.spec_duration(raster.rf)
            ||| block.gx is Some && longest(block, delay, raster)
                == block.gx->Some_0.spec_duration(raster.grad)
            ||| block.gy is Some && longest(block, delay, raster)
                == block.gy->Some_0.spec_duration(raster.grad)
            ||| block.gz is Some && longest(block, delay, raster)
                == block.gz->Some_0.spec_duration(raster.grad)
            ||| block.adc is Some && longest(block, delay, raster)
                == block.adc->Some_0.spec_duration()
            ||| delay is Some && longest(block, delay, raster) == delay->Some_0
            ||| block.rf is None && block.gx is None && block.gy is None && block.gz is None
                && block.adc is None && delay is None
        }),
{
}

/// The event that `id` names in `table`.
fn find<V>(table: &HashMap<u32, Arc<V>>, ty: EventType, id: u32) -> (event: Result<
    Option<Arc<V>>,
    ConversionError,
>)
    ensures
        match event {
            Ok(event) => broken(table@.dom(), ty, id) is None && event == slot(table@, id),
            Err(e) => broken(table@.dom(), ty, id) == Some(e),
        },
{
    broadcast use vstd::std_specs::hash::group_hash_axioms;

    if id == 0 {
        Ok(None)
    } else {
        match table.get(&id) {
            Some(event) => Ok(Some(event.clone())),
            None => Err(ConversionError::BrokenRef { ty, id }),
        }
    }
}

/// The delay that `id` names in `delays`.
fn find_delay(delays: &HashMap<u32, Fixed>, id: u32) -> (delay: Result<
    Option<Fixed>,
    ConversionError,
>)
    ensures
        match delay {
            Ok(delay) => broken(delays@.dom(), EventType::Delay, id) is None && delay == slot(
                delays@,
                id,
            ),
            Err(e) => broken(delays@.dom(), EventType::Delay, id) == Some(e),
        },
{
    broadcast use vstd::std_specs::hash::group_hash_axioms;

    if id == 0 {
        Ok(None)
    } else {
        match delays.get(&id) {
            Some(delay) => Ok(Some(*delay)),
            None => Err(ConversionError::BrokenRef { ty: EventType::Delay, id }),
        }
    }
}

/// The later of two ends.
fn later_of(a: Option<i128>, b: Option<i128>) -> (r: Option<i128>)
    ensures
        match later(
            match a {
                Some(x) => Some(x as int),
                None => None,
            },
            match b {
                Some(x) => Some(x as int),
                None => None,
            },
        ) {
            Some(x) => r == Some(x as i128) && r->Some_0 == x,
            None => r is None,
        },
{
    match (a, b) {
        (None, _) => b,
        (_, None) => a,
        (Some(x), Some(y)) => Some(if x >= y { x } else { y }),
    }
}

/// Puts the events that a record names into a block, and gives the block its
/// length.
///
/// Fails with [`ConversionError::BrokenRef`] where an identifier other than
/// zero names nothing in its table.
pub fn convert_block(
    block: parse_file::Block,
    rfs: &HashMap<u32, Arc<Rf>>,
    gradients: &HashMap<u32, Arc<Gradient>>,
    adcs: &HashMap<u32, Arc<Adc>>,
    delays: &HashMap<u32, Fixed>,
    time_raster: &TimeRaster,
) -> (resolved: Result<Block, ConversionError>)
    ensures
        match resolved {
            Ok(b) => {
                &&& block_failure(
                    block,
                    rfs@.dom(),
                    gradients@.dom(),
                    adcs@.dom(),
                    delays@.dom(),
                ) is None
                &&& b.id == block.id
                &&& b.rf == slot(rfs@, block.rf)
                &&& b.gx == slot(gradients@, block.gx)
                &&& b.gy == slot(gradients@, block.gy)
                &&& b.gz == slot(gradients@, block.gz)
                &&& b.adc == slot(adcs@, block.adc)
                &&& b.duration == block_duration(block.dur, b, delays@, *time_raster)
            },
            Err(e) => block_failure(
                block,
                rfs@.dom(),
                gradients@.dom(),
                adcs@.dom(),
                delays@.dom(),
            ) == Some(e),
        },
{
    let rf: Option<Arc<Rf>> = match find(rfs, EventType::Rf, block.rf) {
        Ok(event) => event,
        Err(e) => {
            return Err(e);
        },
    };
    let gx: Option<Arc<Gradient>> = match find(gradients, EventType::Gx, block.gx) {
        Ok(event) => event,
        Err(e) => {
            return Err(e);
        },
    };
    let gy: Option<Arc<Gradient>> = match find(gradients, EventType::Gy, block.gy) {
        Ok(event) => event,
        Err(e) => {
            return Err(e);
        },
    };
    let gz: Option<Arc<Gradient>> = match find(gradients, EventType::Gz, block.gz) {
        Ok(event) => event,
        Err(e) => {
            return Err(e);
        },
    };
    let adc: Option<Arc<Adc>> = match find(adcs, EventType::Adc, block.adc) {
        Ok(event) => event,
        Err(e) => {
            return Err(e);
        },
    };
    let duration: i128 = match block.dur {
        BlockDuration::Duration(units) => {
            assert(-0x8000_0000_0000_0000 * 0xffff_ffff <= units * time_raster.block
                <= 0x7fff_ffff_ffff_ffff * 0xffff_ffff) by (nonlinear_arith)
                requires
                    0 <= units <= 0xffff_ffff,
                    -0x8000_0000_0000_0000 <= time_raster.block <= 0x7fff_ffff_ffff_ffff,
            ;
            (units as i128) * (time_raster.block as i128)
        },
        BlockDuration::DelayId(id) => {
            let delay: Option<Fixed> = match find_delay(delays, id) {
                Ok(delay) => delay,
                Err(e) => {
                    return Err(e);
                },
            };
            let rf_end: Option<i128> = match &rf {
                Some(rf) => Some(rf.duration(time_raster.rf)),
                None => None,
            };
            let gx_end: Option<i128> = match &gx {
                Some(gx) => Some(gx.duration(time_raster.grad)),
                None => None,
            };
            let gy_end: Option<i128> = match &gy {
                Some(gy) => Some(gy.duration(time_raster.grad)),
                None => None,
            };
            let gz_end: Option<i128> = match &gz {
                Some(gz) => Some(gz.duration(time_raster.grad)),
                None => None,
            };
            let adc_end: Option<i128> = match &adc {
                Some(adc) => Some(adc.duration()),
                None => None,
            };
            let delay_end: Option<i128> = match delay {
                Some(delay) => Some(delay as i128),
                None => None,
            };
            let latest: Option<i128> = later_of(
                later_of(later_of(later_of(later_of(rf_end, gx_end), gy_end), gz_end), adc_end),
                delay_end,
            );
            match latest {
                Some(end) => end,
                None => 0,
            }
        },
    };
    Ok(Block { id: block.id, duration, rf, gx, gy, gz, adc })
}

} // verus!

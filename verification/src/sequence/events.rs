//! Events: from the records of a file to events that blocks can share.

use vstd::prelude::*;
use std::collections::HashMap;
use std::sync::Arc;
use crate::error::ConversionError;
use crate::fixed::Fixed;
use crate::parse_file;
use crate::sequence::from_raw::ids_of;
use crate::sequence::shapes::{resolved_shape, ShapeLib};
use crate::sequence::{Adc, Gradient, Rf, Shape};

verus! {

/// `rf` is the pulse that the record `raw` describes, given the shapes of the
/// file.
pub open spec fn rf_resolves(raw: parse_file::Rf, shapes: Map<u32, Seq<Fixed>>, rf: Rf) -> bool {
    &&& rf.amp == raw.amp
    &&& rf.phase == raw.phase
    &&& rf.delay == raw.delay
    &&& rf.freq == raw.freq
    &&& resolved_shape(shapes, raw.mag_id, raw.time_id) == Ok::<Seq<Fixed>, ConversionError>(
        rf.amp_shape.0@,
    )
    &&& resolved_shape(shapes, raw.phase_id, raw.time_id) == Ok::<Seq<Fixed>, ConversionError>(
        rf.phase_shape.0@,
    )
}

/// Why the record of a pulse cannot be resolved, if it cannot: its magnitude
/// shape fails, or else its phase shape.
pub open spec fn rf_failure(raw: parse_file::Rf, shapes: Map<u32, Seq<Fixed>>) -> Option<
    ConversionError,
> {
    match resolved_shape(shapes, raw.mag_id, raw.time_id) {
        Err(e) => Some(e),
        Ok(_) => match resolved_shape(shapes, raw.phase_id, raw.time_id) {
            Err(e) => Some(e),
            Ok(_) => None,
        },
    }
}

/// The failure of the first among the first `n` records that cannot be
/// resolved.
pub open spec fn first_rf_failure(
    rfs: Seq<parse_file::Rf>,
    shapes: Map<u32, Seq<Fixed>>,
    n: int,
) -> Option<ConversionError>
    decreases n,
{
    if n <= 0 {
        None
    } else {
        match first_rf_failure(rfs, shapes, n - 1) {
            Some(e) => Some(e),
            None => rf_failure(rfs[n - 1], shapes),
        }
    }
}

/// `gradient` is the arbitrary gradient that the record `raw` describes,
/// given the shapes of the file.
pub open spec fn gradient_resolves(
    raw: parse_file::Gradient,
    shapes: Map<u32, Seq<Fixed>>,
    gradient: Gradient,
) -> bool {
    match gradient {
        Gradient::Free { amp, delay, shape } => {
            &&& amp == raw.amp
            &&& delay == raw.delay
            &&& resolved_shape(shapes, raw.shape_id, raw.time_id) == Ok::<
                Seq<Fixed>,
                ConversionError,
            >(shape.0@)
        },
        Gradient::Trap { .. } => false,
    }
}

/// Why the record of an arbitrary gradient cannot be resolved, if it cannot.
pub open spec fn gradient_failure(
    raw: parse_file::Gradient,
    shapes: Map<u32, Seq<Fixed>>,
) -> Option<ConversionError> {
    match resolved_shape(shapes, raw.shape_id, raw.time_id) {
        Err(e) => Some(e),
        Ok(_) => None,
    }
}

/// The failure of the first among the first `n` records that cannot be
/// resolved.
pub open spec fn first_gradient_failure(
    gradients: Seq<parse_file::Gradient>,
    shapes: Map<u32, Seq<Fixed>>,
    n: int,
) -> Option<ConversionError>
    decreases n,
{
    if n <= 0 {
        None
    } else {
        match first_gradient_failure(gradients, shapes, n - 1) {
            Some(e) => Some(e),
            None => gradient_failure(gradients[n - 1], shapes),
        }
    }
}

/// The trapezoid that a record describes.
pub open spec fn trap_resolved(raw: parse_file::Trap) -> Gradient {
    Gradient::Trap {
        amp: raw.amp,
        rise: raw.rise,
        flat: raw.flat,
        fall: raw.fall,
        delay: raw.delay,
    }
}

/// The sampling window that a record describes.
pub open spec fn adc_resolved(raw: parse_file::Adc) -> Adc {
    Adc { num: raw.num, dwell: raw.dwell, delay: raw.delay, freq: raw.freq, phase: raw.phase }
}

/// A failure found among the first `n` records is the one found among all.
pub proof fn lemma_first_rf_failure_stays(
    rfs: Seq<parse_file::Rf>,
    shapes: Map<u32, Seq<Fixed>>,
    n: int,
    m: int,
)
    requires
        0 <= n <= m,
        first_rf_failure(rfs, shapes, n) is Some,
    ensures
        first_rf_failure(rfs, shapes, m) == first_rf_failure(rfs, shapes, n),
    decreases m - n,
{
    if n < m {
        lemma_first_rf_failure_stays(rfs, shapes, n, m - 1);
    }
}

/// A failure found among the first `n` records is the one found among all.
pub proof fn lemma_first_gradient_failure_stays(
    gradients: Seq<parse_file::Gradient>,
    shapes: Map<u32, Seq<Fixed>>,
    n: int,
    m: int,
)
    requires
        0 <= n <= m,
        first_gradient_failure(gradients, shapes, n) is Some,
    ensures
        first_gradient_failure(gradients, shapes, m) == first_gradient_failure(
            gradients,
            shapes,
            n,
        ),
    decreases m - n,
{
    if n < m {
        lemma_first_gradient_failure_stays(gradients, shapes, n, m - 1);
    }
}

/// Resolves the record of one pulse.
pub fn convert_rf(raw: &parse_file::Rf, lib: &mut ShapeLib) -> (rf: Result<Arc<Rf>, ConversionError>)
    requires
        old(lib).wf(),
    ensures
        final(lib).wf(),
        final(lib)@ == old(lib)@,
        match rf {
            Ok(rf) => rf_failure(*raw, old(lib)@) is None && rf_resolves(*raw, old(lib)@, *rf),
            Err(e) => rf_failure(*raw, old(lib)@) == Some(e),
        },
{
    let amp_shape: Arc<Shape> = match lib.get(raw.mag_id, raw.time_id) {
        Ok(shape) => shape,
        Err(e) => {
            return Err(e);
        },
    };
    let phase_shape: Arc<Shape> = match lib.get(raw.phase_id, raw.time_id) {
        Ok(shape) => shape,
        Err(e) => {
            return Err(e);
        },
    };
    Ok(
        Arc::new(
            Rf {
                amp: raw.amp,
                phase: raw.phase,
                delay: raw.delay,
                freq: raw.freq,
                amp_shape,
                phase_shape,
            },
        ),
    )
}

/// Resolves the record of one arbitrary gradient.
pub fn convert_gradient(raw: &parse_file::Gradient, lib: &mut ShapeLib) -> (gradient: Result<
    Arc<Gradient>,
    ConversionError,
>)
    requires
        old(lib).wf(),
    ensures
        final(lib).wf(),
        final(lib)@ == old(lib)@,
        match gradient {
            Ok(gradient) => gradient_failure(*raw, old(lib)@) is None && gradient_resolves(
                *raw,
                old(lib)@,
                *gradient,
            ),
            Err(e) => gradient_failure(*raw, old(lib)@) == Some(e),
        },
{
    match lib.get(raw.shape_id, raw.time_id) {
        Ok(shape) => Ok(Arc::new(Gradient::Free { amp: raw.amp, delay: raw.delay, shape })),
        Err(e) => Err(e),
    }
}

/// Resolves the records of pulses, in their order, and stops at the first
/// that cannot be resolved.
pub fn convert_rfs(rfs: &Vec<parse_file::Rf>, lib: &mut ShapeLib) -> (entries: Result<
    Vec<(u32, Arc<Rf>)>,
    ConversionError,
>)
    requires
        old(lib).wf(),
    ensures
        final(lib).wf(),
        final(lib)@ == old(lib)@,
        match entries {
            Ok(entries) => {
                &&& first_rf_failure(rfs@, old(lib)@, rfs@.len() as int) is None
                &&& entries@.len() == rfs@.len()
                &&& forall|i: int|
                    0 <= i < rfs@.len() ==> (#[trigger] entries@[i]).0 == rfs@[i].id
                        && rf_resolves(rfs@[i], old(lib)@, *entries@[i].1)
            },
            Err(e) => first_rf_failure(rfs@, old(lib)@, rfs@.len() as int) == Some(e),
        },
{
    let ghost shapes = lib@;
    let mut entries: Vec<(u32, Arc<Rf>)> = Vec::new();
    let mut i: usize = 0;
    while i < rfs.len()
        invariant
            i <= rfs@.len(),
            lib.wf(),
            lib@ == shapes,
            shapes == old(lib)@,
            first_rf_failure(rfs@, shapes, i as int) is None,
            entries@.len() == i,
            forall|j: int|
                0 <= j < i ==> (#[trigger] entries@[j]).0 == rfs@[j].id && rf_resolves(
                    rfs@[j],
                    shapes,
                    *entries@[j].1,
                ),
        decreases rfs.len() - i,
    {
        match convert_rf(&rfs[i], lib) {
            Ok(rf) => {
                entries.push((rfs[i].id, rf));
            },
            Err(e) => {
                proof {
                    lemma_first_rf_failure_stays(rfs@, shapes, i + 1, rfs@.len() as int);
                }
                return Err(e);
            },
        }
        i = i + 1;
    }
    Ok(entries)
}

/// Resolves the records of arbitrary gradients, in their order, and stops at
/// the first that cannot be resolved.
pub fn convert_gradients(gradients: &Vec<parse_file::Gradient>, lib: &mut ShapeLib) -> (entries:
    Result<Vec<(u32, Arc<Gradient>)>, ConversionError>)
    requires
        old(lib).wf(),
    ensures
        final(lib).wf(),
        final(lib)@ == old(lib)@,
        match entries {
            Ok(entries) => {
                &&& first_gradient_failure(gradients@, old(lib)@, gradients@.len() as int) is None
                &&& entries@.len() == gradients@.len()
                &&& forall|i: int|
                    0 <= i < gradients@.len() ==> (#[trigger] entries@[i]).0 == gradients@[i].id
                        && gradient_resolves(gradients@[i], old(lib)@, *entries@[i].1)
            },
            Err(e) => first_gradient_failure(gradients@, old(lib)@, gradients@.len() as int)
                == Some(e),
        },
{
    let ghost shapes = lib@;
    let mut entries: Vec<(u32, Arc<Gradient>)> = Vec::new();
    let mut i: usize = 0;
    while i < gradients.len()
        invariant
            i <= gradients@.len(),
            lib.wf(),
            lib@ == shapes,
            shapes == old(lib)@,
            first_gradient_failure(gradients@, shapes, i as int) is None,
            entries@.len() == i,
            forall|j: int|
                0 <= j < i ==> (#[trigger] entries@[j]).0 == gradients@[j].id
                    && gradient_resolves(gradients@[j], shapes, *entries@[j].1),
        decreases gradients.len() - i,
    {
        match convert_gradient(&gradients[i], lib) {
            Ok(gradient) => {
                entries.push((gradients[i].id, gradient));
            },
            Err(e) => {
                proof {
                    lemma_first_gradient_failure_stays(
                        gradients@,
                        shapes,
                        i + 1,
                        gradients@.len() as int,
                    );
                }
                return Err(e);
            },
        }
        i = i + 1;
    }
    Ok(entries)
}

/// The trapezoids that the records describe, in their order.
pub fn convert_traps(traps: &Vec<parse_file::Trap>) -> (entries: Vec<(u32, Arc<Gradient>)>)
    ensures
        entries@.len() == traps@.len(),
        forall|i: int|
            0 <= i < traps@.len() ==> (#[trigger] entries@[i]).0 == traps@[i].id && *entries@[i].1
                == trap_resolved(traps@[i]),
{
    let mut entries: Vec<(u32, Arc<Gradient>)> = Vec::new();
    let mut i: usize = 0;
    while i < traps.len()
        invariant
            i <= traps@.len(),
            entries@.len() == i,
            forall|j: int|
                0 <= j < i ==> (#[trigger] entries@[j]).0 == traps@[j].id && *entries@[j].1
                    == trap_resolved(traps@[j]),
        decreases traps.len() - i,
    {
        let raw: parse_file::Trap = traps[i];
        let trap: Gradient = Gradient::Trap {
            amp: raw.amp,
            rise: raw.rise,
            flat: raw.flat,
            fall: raw.fall,
            delay: raw.delay,
        };
        entries.push((raw.id, Arc::new(trap)));
        i = i + 1;
    }
    entries
}

/// The sampling windows that the records describe, in their order.
pub fn convert_adcs(adcs: &Vec<parse_file::Adc>) -> (entries: Vec<(u32, Arc<Adc>)>)
    ensures
        entries@.len() == adcs@.len(),
        forall|i: int|
            0 <= i < adcs@.len() ==> (#[trigger] entries@[i]).0 == adcs@[i].id && *entries@[i].1
                == adc_resolved(adcs@[i]),
{
    let mut entries: Vec<(u32, Arc<Adc>)> = Vec::new();
    let mut i: usize = 0;
    while i < adcs.len()
        invariant
            i <= adcs@.len(),
            entries@.len() == i,
            forall|j: int|
                0 <= j < i ==> (#[trigger] entries@[j]).0 == adcs@[j].id && *entries@[j].1
                    == adc_resolved(adcs@[j]),
        decreases adcs.len() - i,
    {
        let raw: parse_file::Adc = adcs[i];
        let adc: Adc = Adc {
            num: raw.num,
            dwell: raw.dwell,
            delay: raw.delay,
            freq: raw.freq,
            phase: raw.phase,
        };
        entries.push((raw.id, Arc::new(adc)));
        i = i + 1;
    }
    entries
}

/// The delays that the records describe, in their order.
pub fn convert_delays(delays: &Vec<parse_file::Delay>) -> (entries: Vec<(u32, Fixed)>)
    ensures
        entries@.len() == delays@.len(),
        forall|i: int|
            0 <= i < delays@.len() ==> (#[trigger] entries@[i]).0 == delays@[i].id
                && entries@[i].1 == delays@[i].delay,
{
    let mut entries: Vec<(u32, Fixed)> = Vec::new();
    let mut i: usize = 0;
    while i < delays.len()
        invariant
            i <= delays@.len(),
            entries@.len() == i,
            forall|j: int|
                0 <= j < i ==> (#[trigger] entries@[j]).0 == delays@[j].id && entries@[j].1
                    == delays@[j].delay,
        decreases delays.len() - i,
    {
        let raw: parse_file::Delay = delays[i];
        entries.push((raw.id, raw.delay));
        i = i + 1;
    }
    entries
}

/// Adds the trapezoids to the table of the arbitrary gradients: the two kinds
/// share their identifiers.
///
/// Fails with [`ConversionError::GradTrapIdReuse`] where, and only where, a
/// trapezoid has the identifier of an arbitrary gradient.
pub(crate) fn merge_traps(
    gradients: HashMap<u32, Arc<Gradient>>,
    traps: Vec<(u32, Arc<Gradient>)>,
) -> (merged: Result<HashMap<u32, Arc<Gradient>>, ConversionError>)
    requires
        ids_of(traps@).no_duplicates(),
    ensures
        match merged {
            Ok(merged) => {
                &&& forall|i: int|
                    0 <= i < traps@.len() ==> !gradients@.contains_key((#[trigger] traps@[i]).0)
                &&& forall|id: u32|
                    merged@.contains_key(id) <==> gradients@.contains_key(id) || ids_of(
                        traps@,
                    ).contains(id)
                &&& forall|id: u32|
                    gradients@.contains_key(id) ==> merged@[id] == gradients@[id]
                &&& forall|i: int|
                    0 <= i < traps@.len() ==> merged@[(#[trigger] traps@[i]).0] == traps@[i].1
            },
            Err(e) => {
                &&& e == ConversionError::GradTrapIdReuse
                &&& exists|i: int|
                    0 <= i < traps@.len() && gradients@.contains_key((#[trigger] traps@[i]).0)
            },
        },
{
    broadcast use vstd::std_specs::hash::group_hash_axioms;

    let ghost ids = ids_of(traps@);
    let mut merged: HashMap<u32, Arc<Gradient>> = gradients;
    for entry in it: traps
        invariant
            it.seq() == traps@,
            ids == ids_of(traps@),
            ids.no_duplicates(),
            forall|i: int|
                0 <= i < it.index() ==> !gradients@.contains_key((#[trigger] traps@[i]).0),
            forall|id: u32|
                merged@.contains_key(id) <==> gradients@.contains_key(id) || ids.take(
                    it.index() as int,
                ).contains(id),
            forall|id: u32| gradients@.contains_key(id) ==> merged@[id] == gradients@[id],
            forall|i: int|
                0 <= i < it.index() ==> merged@[(#[trigger] traps@[i]).0] == traps@[i].1,
    {
        let ghost n = it.index() as int;
        let (id, trap) = entry;
        assert(ids[n] == id);
        if merged.contains_key(&id) {
            proof {
                if ids.take(n).contains(id) {
                    let j = choose|j: int| 0 <= j < n && ids.take(n)[j] == id;
                    assert(ids[j] == ids[n]);
                }
                assert(gradients@.contains_key(traps@[n].0));
            }
            return Err(ConversionError::GradTrapIdReuse);
        }
        merged.insert(id, trap);
        proof {
            let before = ids.take(n);
            let now = ids.take(n + 1);
            assert(now =~= before.push(id));
            assert forall|k: u32|
                merged@.contains_key(k) <==> gradients@.contains_key(k) || now.contains(k) by {
                if before.contains(k) {
                    let j = choose|j: int| 0 <= j < n && before[j] == k;
                    assert(now[j] == k);
                }
                if k == id {
                    assert(now[n] == k);
                }
                if now.contains(k) && k != id {
                    let j = choose|j: int| 0 <= j < now.len() && now[j] == k;
                    assert(before[j] == k);
                }
            }
            assert forall|i: int| 0 <= i < n + 1 implies merged@[(#[trigger] traps@[i]).0]
                == traps@[i].1 by {
                if i < n {
                    assert(ids[i] != ids[n]);
                }
            }
        }
    }
    assert(ids.take(traps@.len() as int) =~= ids);
    Ok(merged)
}

} // verus!

//! Shapes on the raster: expansion along a time shape, and the store that
//! hands shapes out to events.

use vstd::prelude::*;
use vstd::arithmetic::div_mod::{
    lemma_div_is_ordered, lemma_div_pos_is_pos, lemma_fundamental_div_mod,
    lemma_fundamental_div_mod_converse,
};
use std::collections::HashMap;
use std::sync::Arc;
use crate::error::ConversionError;
use crate::fixed::{has_no_fraction, is_whole, whole_of, whole_part, Fixed, UNIT};
use crate::sequence::Shape;

verus! {

/// The raster step that a value of a time shape names: its whole part, held
/// to the range of `u32`.
pub open spec fn tick(value: Fixed) -> nat {
    if value < 0 {
        0
    } else if whole_part(value) > u32::MAX {
        u32::MAX as nat
    } else {
        whole_part(value) as nat
    }
}

/// The raster step at which entry `i` of a time shape ends; entry `-1` ends
/// at step zero.
pub open spec fn boundary(time: Seq<Fixed>, i: int) -> nat {
    if i < 0 {
        0
    } else {
        tick(time[i])
    }
}

/// The time shape fails to step forwards somewhere among its first `n`
/// entries: an entry names the raster step of the entry before it, or an
/// earlier one.
pub open spec fn steps_back(time: Seq<Fixed>, n: int) -> bool {
    exists|i: int| 1 <= i < n && tick(#[trigger] time[i]) <= tick(time[i - 1])
}

/// The value in the middle of step `k` of `steps` on the straight line from
/// `from` to `to`, rounded down to a fixed-point unit.
pub open spec fn interpolated(from: Fixed, to: Fixed, k: int, steps: int) -> int {
    from + ((2 * k + 1) * (to - from)) / (2 * steps)
}

/// The samples of `steps` raster steps on the line from `from` to `to`.
pub open spec fn segment(from: Fixed, to: Fixed, steps: nat) -> Seq<Fixed> {
    Seq::new(steps, |k: int| interpolated(from, to, k, steps as int) as Fixed)
}

/// The amplitude from which the line to entry `i` of a shape starts: the
/// entry before it, and for the first entry that entry itself.
pub open spec fn line_start(shape: Seq<Fixed>, i: int) -> Fixed {
    if i <= 0 {
        shape[0]
    } else {
        shape[i - 1]
    }
}

/// The samples on the raster that the first `n` entries of `shape` and `time`
/// describe: entry `i` gives the amplitude at the boundary `time[i]`, and the
/// raster steps between two boundaries lie on the line between their
/// amplitudes.
pub open spec fn expanded_prefix(shape: Seq<Fixed>, time: Seq<Fixed>, n: int) -> Seq<Fixed>
    decreases n,
{
    if n <= 0 {
        Seq::empty()
    } else {
        expanded_prefix(shape, time, n - 1) + segment(
            line_start(shape, n - 1),
            shape[n - 1],
            (boundary(time, n - 1) - boundary(time, n - 2)) as nat,
        )
    }
}

/// What [`expand_shape`] makes of a shape and its time shape.
pub open spec fn expansion(shape: Seq<Fixed>, time: Seq<Fixed>) -> Result<
    Seq<Fixed>,
    ConversionError,
> {
    if shape.len() != time.len() {
        Err(
            ConversionError::TimeShapeMismatch {
                shape_len: shape.len() as usize,
                time_len: time.len() as usize,
            },
        )
    } else if shape.len() == 0 {
        Ok(Seq::empty())
    } else if exists|i: int| 0 <= i < time.len() && !is_whole(#[trigger] time[i]) {
        Err(ConversionError::TimeShapeNonInteger)
    } else if steps_back(time, time.len() as int) {
        Err(ConversionError::TimeShapeNonIncreasing)
    } else {
        Ok(expanded_prefix(shape, time, time.len() as int))
    }
}

/// Where a time shape steps forwards throughout, the expansion of its first
/// `n` entries ends at the boundary of entry `n - 1`.
pub proof fn lemma_expanded_prefix_len(shape: Seq<Fixed>, time: Seq<Fixed>, n: int)
    requires
        0 <= n <= time.len(),
        !steps_back(time, n),
    ensures
        expanded_prefix(shape, time, n).len() == boundary(time, n - 1),
    decreases n,
{
    if n > 0 {
        assert(!steps_back(time, n - 1));
        lemma_expanded_prefix_len(shape, time, n - 1);
        if n >= 2 {
            assert(tick(time[n - 1]) > tick(time[n - 2]));
        }
    }
}

/// An expansion that succeeds is as long as the last entry of the time shape
/// says.
pub proof fn lemma_expansion_len(shape: Seq<Fixed>, time: Seq<Fixed>)
    requires
        expansion(shape, time) is Ok,
    ensures
        expansion(shape, time)->Ok_0.len() == boundary(time, time.len() - 1),
{
    if shape.len() > 0 {
        lemma_expanded_prefix_len(shape, time, time.len() as int);
    }
}

/// A larger value names no earlier raster step.
pub proof fn lemma_tick_is_ordered(smaller: Fixed, larger: Fixed)
    requires
        smaller <= larger,
    ensures
        tick(smaller) <= tick(larger),
{
    lemma_div_is_ordered(smaller as int, larger as int, UNIT as int);
    if smaller >= 0 {
        lemma_div_pos_is_pos(smaller as int, UNIT as int);
    }
    if larger >= 0 {
        lemma_div_pos_is_pos(larger as int, UNIT as int);
    }
}

/// A time shape of whole numbers with an entry that is not larger than the
/// entry before it is refused, whatever the shape of the same length that it
/// comes with.
pub proof fn lemma_stepping_back_is_refused(shape: Seq<Fixed>, time: Seq<Fixed>, i: int)
    requires
        shape.len() == time.len(),
        forall|j: int| 0 <= j < time.len() ==> is_whole(#[trigger] time[j]),
        1 <= i < time.len(),
        time[i] <= time[i - 1],
    ensures
        expansion(shape, time) == Err::<Seq<Fixed>, ConversionError>(
            ConversionError::TimeShapeNonIncreasing,
        ),
{
    lemma_tick_is_ordered(time[i], time[i - 1]);
}

/// The quotient lies between zero and the difference that was scaled down.
proof fn lemma_interpolated_between(delta: int, weight: int, steps: int)
    requires
        0 < weight < steps,
    ensures
        delta >= 0 ==> 0 <= (weight * delta) / steps <= delta,
        delta < 0 ==> delta <= (weight * delta) / steps <= 0,
{
    let x = weight * delta;
    let q = x / steps;
    lemma_fundamental_div_mod(x, steps);
    assert(0 <= x % steps < steps);
    assert(x == steps * q + x % steps);
    if delta >= 0 {
        assert(0 <= x <= steps * delta) by (nonlinear_arith)
            requires
                x == weight * delta,
                0 < weight < steps,
                delta >= 0,
        ;
        assert(0 <= q <= delta) by (nonlinear_arith)
            requires
                0 <= x <= steps * delta,
                x == steps * q + x % steps,
                0 <= x % steps < steps,
                steps > 0,
        ;
    } else {
        assert(steps * delta <= x < 0) by (nonlinear_arith)
            requires
                x == weight * delta,
                0 < weight < steps,
                delta < 0,
        ;
        assert(delta <= q <= 0) by (nonlinear_arith)
            requires
                steps * delta <= x < 0,
                x == steps * q + x % steps,
                0 <= x % steps < steps,
                steps > 0,
        ;
    }
}

/// The value in the middle of step `k` of `steps` on the line from `from` to
/// `to`.
fn interpolate(from: Fixed, to: Fixed, k: u32, steps: u32) -> (r: Fixed)
    requires
        k < steps,
    ensures
        r == interpolated(from, to, k as int, steps as int),
{
    let weight: i128 = 2 * (k as i128) + 1;
    let parts: i128 = 2 * (steps as i128);
    let delta: i128 = (to as i128) - (from as i128);
    proof {
        lemma_interpolated_between(delta as int, weight as int, parts as int);
        assert(-0x2_0000_0000 * 0x1_0000_0000_0000_0000 <= weight * delta <= 0x2_0000_0000
            * 0x1_0000_0000_0000_0000) by (nonlinear_arith)
            requires
                0 < weight < 0x2_0000_0000,
                -0x1_0000_0000_0000_0000 <= delta <= 0x1_0000_0000_0000_0000,
        ;
    }
    let scaled: i128 = weight * delta;
    let quotient: i128 = if scaled >= 0 {
        scaled / parts
    } else {
        let up: i128 = (-scaled + parts - 1) / parts;
        proof {
            // Rounding `-scaled` up is rounding `scaled` down.
            let m = -scaled as int;
            let d = parts as int;
            let u = (m + d - 1) / d;
            lemma_fundamental_div_mod(m + d - 1, d);
            let rest = (m + d - 1) % d;
            assert(0 <= rest < d);
            assert(m + d - 1 == d * u + rest);
            assert(scaled as int == (-u) * d + (d - 1 - rest)) by (nonlinear_arith)
                requires
                    m + d - 1 == d * u + rest,
                    scaled as int == -m,
            ;
            lemma_fundamental_div_mod_converse(scaled as int, d, -u, d - 1 - rest);
        }
        -up
    };
    (from as i128 + quotient) as i64
}

/// The raster step that a whole value of a time shape names.
fn tick_of(value: Fixed) -> (r: u32)
    ensures
        r == tick(value),
{
    if value < 0 {
        0
    } else {
        let whole: u64 = whole_of(value);
        if whole > u32::MAX as u64 {
            u32::MAX
        } else {
            whole as u32
        }
    }
}

/// Lays a shape out on the raster, along its time shape.
///
/// Entry `i` of `time` is the raster step at which the amplitude is entry `i`
/// of `shape`; the samples in between lie on straight lines. Both must have
/// the same length, and `time` must hold whole numbers of which each names a
/// later raster step than the one before it. The result is as long as the
/// last entry of `time` says.
pub fn expand_shape(shape: &Shape, time: &Shape) -> (expanded: Result<Shape, ConversionError>)
    ensures
        match expanded {
            Ok(s) => {
                &&& expansion(shape.0@, time.0@) == Ok::<Seq<Fixed>, ConversionError>(s.0@)
                &&& s.0@.len() == boundary(time.0@, time.0@.len() - 1)
            },
            Err(e) => expansion(shape.0@, time.0@) == Err::<Seq<Fixed>, ConversionError>(e),
        },
{
    if shape.0.len() != time.0.len() {
        return Err(
            ConversionError::TimeShapeMismatch {
                shape_len: shape.0.len(),
                time_len: time.0.len(),
            },
        );
    }
    if shape.0.len() == 0 {
        return Ok(Shape(Vec::new()));
    }
    let mut i: usize = 0;
    while i < time.0.len()
        invariant
            i <= time.0@.len(),
            shape.0@.len() == time.0@.len(),
            shape.0@.len() > 0,
            forall|j: int| 0 <= j < i ==> is_whole(#[trigger] time.0@[j]),
        decreases time.0.len() - i,
    {
        if !has_no_fraction(time.0[i]) {
            return Err(ConversionError::TimeShapeNonInteger);
        }
        i = i + 1;
    }
    // A time shape is refused before any sample is made.

    let mut i: usize = 1;
    while i < time.0.len()
        invariant
            1 <= i <= time.0@.len(),
            shape.0@.len() == time.0@.len(),
            forall|j: int| 0 <= j < time.0@.len() ==> is_whole(#[trigger] time.0@[j]),
            !steps_back(time.0@, i as int),
        decreases time.0.len() - i,
    {
        if tick_of(time.0[i]) <= tick_of(time.0[i - 1]) {
            assert(steps_back(time.0@, time.0@.len() as int));
            return Err(ConversionError::TimeShapeNonIncreasing);
        }
        assert(!steps_back(time.0@, i + 1)) by {
            if steps_back(time.0@, i + 1) {
                let j = choose|j: int|
                    1 <= j < i + 1 && tick(#[trigger] time.0@[j]) <= tick(time.0@[j - 1]);
                if j < i {
                    assert(steps_back(time.0@, i as int));
                }
            }
        }
        i = i + 1;
    }
    let mut samples: Vec<Fixed> = Vec::new();
    let mut from: Fixed = shape.0[0];
    let mut i: usize = 0;
    while i < time.0.len()
        invariant
            i <= time.0@.len(),
            shape.0@.len() == time.0@.len(),
            shape.0@.len() > 0,
            !steps_back(time.0@, time.0@.len() as int),
            samples@ == expanded_prefix(shape.0@, time.0@, i as int),
            samples@.len() == boundary(time.0@, i - 1),
            from == line_start(shape.0@, i as int),
        decreases time.0.len() - i,
    {
        let end: u32 = tick_of(time.0[i]);
        let to: Fixed = shape.0[i];
        assert(samples@.len() <= end) by {
            if i > 0 {
                assert(tick(time.0@[i as int]) > tick(time.0@[i - 1]));
            }
        }
        let steps: u32 = end - samples.len() as u32;
        let ghost before = samples@;
        let mut k: u32 = 0;
        while k < steps
            invariant
                k <= steps,
                samples@ == before + segment(from, to, steps as nat).take(k as int),
            decreases steps - k,
        {
            let value: Fixed = interpolate(from, to, k, steps);
            samples.push(value);
            assert(segment(from, to, steps as nat).take(k as int).push(value) =~= segment(
                from,
                to,
                steps as nat,
            ).take(k + 1));
            k = k + 1;
        }
        assert(segment(from, to, steps as nat).take(steps as int) =~= segment(
            from,
            to,
            steps as nat,
        ));
        from = to;
        i = i + 1;
    }
    Ok(Shape(samples))
}

/// The samples of the shapes of a table.
pub open spec fn shape_views(shapes: Map<u32, Arc<Shape>>) -> Map<u32, Seq<Fixed>> {
    Map::new(|id: u32| shapes.contains_key(id), |id: u32| shapes[id].0@)
}

/// The shape that an event means by the identifiers of a shape and of a time
/// shape: the shape itself where the time shape is zero, and else its
/// expansion along the time shape.
pub open spec fn resolved_shape(shapes: Map<u32, Seq<Fixed>>, shape_id: u32, time_id: u32) -> Result<
    Seq<Fixed>,
    ConversionError,
> {
    if !shapes.contains_key(shape_id) {
        Err(ConversionError::ShapeNotFound(shape_id))
    } else if time_id == 0 {
        Ok(shapes[shape_id])
    } else if !shapes.contains_key(time_id) {
        Err(ConversionError::ShapeNotFound(time_id))
    } else {
        expansion(shapes[shape_id], shapes[time_id])
    }
}

/// The key under which the expansion of a shape along a time shape is kept.
pub open spec fn memo_key(shape_id: u32, time_id: u32) -> u64 {
    (shape_id * 0x1_0000_0000 + time_id) as u64
}

/// The shapes of a file, and the expansions made of them so far. Each
/// expansion is made once and then shared.
pub struct ShapeLib {
    shapes: HashMap<u32, Arc<Shape>>,
    memo: HashMap<u64, Arc<Shape>>,
}

impl ShapeLib {
    /// The samples of each shape, by its identifier.
    pub closed spec fn view(&self) -> Map<u32, Seq<Fixed>> {
        shape_views(self.shapes@)
    }

    /// The shapes of the file, as they are handed out.
    pub closed spec fn stored(&self) -> Map<u32, Arc<Shape>> {
        self.shapes@
    }

    /// The expansions that were made so far, by the identifiers of shape and
    /// time shape.
    pub closed spec fn kept(&self) -> Map<(u32, u32), Arc<Shape>> {
        Map::new(
            |pair: (u32, u32)| self.memo@.contains_key(memo_key(pair.0, pair.1)),
            |pair: (u32, u32)| self.memo@[memo_key(pair.0, pair.1)],
        )
    }

    /// The shape that is there already for `shape_id` and `time_id`: the
    /// shape of the file itself where the time shape is zero, and else the
    /// expansion if it was made before.
    pub open spec fn shared(&self, shape_id: u32, time_id: u32) -> Option<Arc<Shape>> {
        if time_id == 0 {
            if self.stored().contains_key(shape_id) {
                Some(self.stored()[shape_id])
            } else {
                None
            }
        } else if self.kept().contains_key((shape_id, time_id)) {
            Some(self.kept()[(shape_id, time_id)])
        } else {
            None
        }
    }

    /// No shape has the identifier zero, and every expansion that is kept is
    /// the expansion of the two shapes that its key names.
    pub closed spec fn wf(&self) -> bool {
        &&& !self.shapes@.contains_key(0)
        &&& forall|s: u32, t: u32|
            self.memo@.contains_key(#[trigger] memo_key(s, t)) ==> {
                &&& self.shapes@.contains_key(s)
                &&& self.shapes@.contains_key(t)
                &&& expansion(self.shapes@[s].0@, self.shapes@[t].0@) == Ok::<
                    Seq<Fixed>,
                    ConversionError,
                >(self.memo@[memo_key(s, t)].0@)
            }
    }

    /// Takes the shapes of a file. Fails with
    /// [`ConversionError::ShapeIndexZero`] where, and only where, one of them
    /// has the identifier zero.
    pub fn new(shapes: HashMap<u32, Arc<Shape>>) -> (lib: Result<Self, ConversionError>)
        ensures
            match lib {
                Ok(lib) => {
                    &&& lib.wf()
                    &&& lib@ == shape_views(shapes@)
                    &&& lib.stored() == shapes@
                    &&& lib.kept() == Map::<(u32, u32), Arc<Shape>>::empty()
                    &&& !shapes@.contains_key(0)
                },
                Err(e) => e == ConversionError::ShapeIndexZero && shapes@.contains_key(0),
            },
    {
        broadcast use vstd::std_specs::hash::group_hash_axioms;

        if shapes.contains_key(&0) {
            Err(ConversionError::ShapeIndexZero)
        } else {
            let lib: ShapeLib = ShapeLib { shapes, memo: HashMap::new() };
            assert(lib.kept() =~= Map::<(u32, u32), Arc<Shape>>::empty());
            Ok(lib)
        }
    }

    /// The shape that an event means by `shape_id` and `time_id`. A shape
    /// that was handed out before is handed out again: an expansion is made
    /// once.
    #[verifier::spinoff_prover]
    #[verifier::rlimit(40)]
    pub fn get(&mut self, shape_id: u32, time_id: u32) -> (shape: Result<
        Arc<Shape>,
        ConversionError,
    >)
        requires
            old(self).wf(),
        ensures
            final(self).wf(),
            final(self)@ == old(self)@,
            final(self).stored() == old(self).stored(),
            match shape {
                Ok(s) => {
                    &&& resolved_shape(old(self)@, shape_id, time_id) == Ok::<
                        Seq<Fixed>,
                        ConversionError,
                    >(s.0@)
                    &&& final(self).shared(shape_id, time_id) == Some(s)
                    &&& forall|a: u32, b: u32|
                        (a, b) != (shape_id, time_id) ==> #[trigger] final(self).shared(a, b)
                            == old(self).shared(a, b)
                    &&& old(self).shared(shape_id, time_id) is Some ==> old(self).shared(
                        shape_id,
                        time_id,
                    ) == Some(s)
                },
                Err(e) => {
                    &&& resolved_shape(old(self)@, shape_id, time_id) == Err::<
                        Seq<Fixed>,
                        ConversionError,
                    >(e)
                    &&& final(self).kept() == old(self).kept()
                },
            },
    {
        broadcast use vstd::std_specs::hash::group_hash_axioms;

        let shape: Arc<Shape> = match self.shapes.get(&shape_id) {
            Some(s) => s.clone(),
            None => {
                return Err(ConversionError::ShapeNotFound(shape_id));
            },
        };
        if time_id == 0 {
            return Ok(shape);
        }
        let time: Arc<Shape> = match self.shapes.get(&time_id) {
            Some(s) => s.clone(),
            None => {
                return Err(ConversionError::ShapeNotFound(time_id));
            },
        };
        let key: u64 = (shape_id as u64) * 0x1_0000_0000 + (time_id as u64);
        assert(key == memo_key(shape_id, time_id));
        match self.memo.get(&key) {
            Some(kept) => {
                return Ok(kept.clone());
            },
            None => {},
        }
        match expand_shape(&shape, &time) {
            Ok(expanded) => {
                let expanded: Arc<Shape> = Arc::new(expanded);
                self.memo.insert(key, expanded.clone());
                assert forall|s: u32, t: u32|
                    self.memo@.contains_key(#[trigger] memo_key(s, t)) implies {
                    &&& self.shapes@.contains_key(s)
                    &&& self.shapes@.contains_key(t)
                    &&& expansion(self.shapes@[s].0@, self.shapes@[t].0@) == Ok::<
                        Seq<Fixed>,
                        ConversionError,
                    >(self.memo@[memo_key(s, t)].0@)
                } by {
                    if memo_key(s, t) == key {
                        assert(s == shape_id && t == time_id);
                    }
                }
                assert forall|a: u32, b: u32| (a, b) != (shape_id, time_id) implies #[trigger] self.shared(
                    a,
                    b,
                ) == old(self).shared(a, b) by {
                    assert(memo_key(a, b) != key);
                }
                Ok(expanded)
            },
            Err(e) => Err(e),
        }
    }
}

} // verus!

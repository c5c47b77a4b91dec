//! The events of a file, filed under their identifiers.

use vstd::prelude::*;
use std::collections::HashMap;
use std::sync::Arc;
use crate::error::{ConversionError, SectionType};
use crate::fixed::Fixed;
use crate::parse_file;
use crate::sequence::blocks::first_of;
use crate::sequence::events::{
    adc_resolved, convert_adcs, convert_delays, convert_gradients, convert_rfs, convert_traps,
    first_gradient_failure, first_rf_failure, gradient_resolves, merge_traps, rf_resolves,
    trap_resolved,
};
use crate::sequence::from_raw::{convert_sec, ids_of};
use crate::sequence::shapes::{shape_views, ShapeLib};
use crate::sequence::{Adc, Gradient, Rf, Shape};

verus! {

pub open spec fn shape_ids(shapes: Seq<parse_file::Shape>) -> Seq<u32> {
    Seq::new(shapes.len(), |i: int| shapes[i].id)
}

pub open spec fn rf_ids(rfs: Seq<parse_file::Rf>) -> Seq<u32> {
    Seq::new(rfs.len(), |i: int| rfs[i].id)
}

pub open spec fn gradient_ids(gradients: Seq<parse_file::Gradient>) -> Seq<u32> {
    Seq::new(gradients.len(), |i: int| gradients[i].id)
}

pub open spec fn trap_ids(traps: Seq<parse_file::Trap>) -> Seq<u32> {
    Seq::new(traps.len(), |i: int| traps[i].id)
}

pub open spec fn adc_ids(adcs: Seq<parse_file::Adc>) -> Seq<u32> {
    Seq::new(adcs.len(), |i: int| adcs[i].id)
}

pub open spec fn delay_ids(delays: Seq<parse_file::Delay>) -> Seq<u32> {
    Seq::new(delays.len(), |i: int| delays[i].id)
}

/// The error of two records of one kind that share an identifier.
pub open spec fn reuse(ids: Seq<u32>, ty: SectionType) -> Option<ConversionError> {
    if ids.no_duplicates() {
        None
    } else {
        Some(ConversionError::EventIdReuse(ty))
    }
}

/// The samples of the shapes of a file, by their identifiers.
pub open spec fn shape_table(shapes: Seq<parse_file::Shape>) -> Map<u32, Seq<Fixed>> {
    Map::new(
        |id: u32| shape_ids(shapes).contains(id),
        |id: u32| shapes[shape_ids(shapes).index_of(id)].samples@,
    )
}

/// The delays of a file, by their identifiers.
pub open spec fn delay_table(delays: Seq<parse_file::Delay>) -> Map<u32, Fixed> {
    Map::new(
        |id: u32| delay_ids(delays).contains(id),
        |id: u32| delays[delay_ids(delays).index_of(id)].delay,
    )
}

/// Why the shapes of a file cannot be taken, if they cannot: two share an
/// identifier, or one has the identifier zero.
pub open spec fn shapes_failure(shapes: Seq<parse_file::Shape>) -> Option<ConversionError> {
    if !shape_ids(shapes).no_duplicates() {
        Some(ConversionError::EventIdReuse(SectionType::Shapes))
    } else if shape_ids(shapes).contains(0) {
        Some(ConversionError::ShapeIndexZero)
    } else {
        None
    }
}

/// An arbitrary gradient and a trapezoid share an identifier.
pub open spec fn collide(
    gradients: Seq<parse_file::Gradient>,
    traps: Seq<parse_file::Trap>,
) -> bool {
    exists|i: int, j: int|
        0 <= i < gradients.len() && 0 <= j < traps.len() && (#[trigger] gradients[i]).id == (
        #[trigger] traps[j]).id
}

/// The error of an arbitrary gradient and a trapezoid that share an
/// identifier.
pub open spec fn collision(
    gradients: Seq<parse_file::Gradient>,
    traps: Seq<parse_file::Trap>,
) -> Option<ConversionError> {
    if collide(gradients, traps) {
        Some(ConversionError::GradTrapIdReuse)
    } else {
        None
    }
}

/// Why the events of a file cannot be filed kind by kind, if they cannot.
/// The kinds are taken in the order shapes, delays, sampling windows,
/// pulses, arbitrary gradients, trapezoids; within a kind, a record that
/// cannot be resolved comes before an identifier that stands twice.
pub open spec fn kinds_failure(
    shapes: Seq<parse_file::Shape>,
    delays: Seq<parse_file::Delay>,
    adcs: Seq<parse_file::Adc>,
    rfs: Seq<parse_file::Rf>,
    gradients: Seq<parse_file::Gradient>,
    traps: Seq<parse_file::Trap>,
) -> Option<ConversionError> {
    let table = shape_table(shapes);
    first_of(
        shapes_failure(shapes),
        first_of(
            reuse(delay_ids(delays), SectionType::Delays),
            first_of(
                reuse(adc_ids(adcs), SectionType::Adcs),
                first_of(
                    first_rf_failure(rfs, table, rfs.len() as int),
                    first_of(
                        reuse(rf_ids(rfs), SectionType::Rfs),
                        first_of(
                            first_gradient_failure(gradients, table, gradients.len() as int),
                            first_of(
                                reuse(gradient_ids(gradients), SectionType::Gradients),
                                reuse(trap_ids(traps), SectionType::Traps),
                            ),
                        ),
                    ),
                ),
            ),
        ),
    )
}

/// Why the events of a file cannot be filed, if they cannot: a kind is at
/// fault, or else an arbitrary gradient and a trapezoid share an identifier.
pub open spec fn tables_failure(
    shapes: Seq<parse_file::Shape>,
    delays: Seq<parse_file::Delay>,
    adcs: Seq<parse_file::Adc>,
    rfs: Seq<parse_file::Rf>,
    gradients: Seq<parse_file::Gradient>,
    traps: Seq<parse_file::Trap>,
) -> Option<ConversionError> {
    first_of(
        kinds_failure(shapes, delays, adcs, rfs, gradients, traps),
        collision(gradients, traps),
    )
}

/// The events of a file, by their identifiers. Arbitrary gradients and
/// trapezoids stand in one table.
pub struct Tables {
    pub rfs: HashMap<u32, Arc<Rf>>,
    pub gradients: HashMap<u32, Arc<Gradient>>,
    pub adcs: HashMap<u32, Arc<Adc>>,
    pub delays: HashMap<u32, Fixed>,
}

impl Tables {
    /// The table of the pulses holds what the records describe.
    pub open spec fn rfs_agree(&self, rfs: Seq<parse_file::Rf>, shapes: Map<u32, Seq<Fixed>>) -> bool {
        &&& forall|id: u32| self.rfs@.contains_key(id) <==> rf_ids(rfs).contains(id)
        &&& forall|k: int|
            0 <= k < rfs.len() ==> rf_resolves(
                #[trigger] rfs[k],
                shapes,
                *self.rfs@[rfs[k].id],
            )
    }

    /// The table of the gradients holds what the records of both kinds
    /// describe.
    pub open spec fn gradients_agree(
        &self,
        gradients: Seq<parse_file::Gradient>,
        traps: Seq<parse_file::Trap>,
        shapes: Map<u32, Seq<Fixed>>,
    ) -> bool {
        &&& forall|id: u32|
            self.gradients@.contains_key(id) <==> gradient_ids(gradients).contains(id)
                || trap_ids(traps).contains(id)
        &&& forall|k: int|
            0 <= k < gradients.len() ==> gradient_resolves(
                #[trigger] gradients[k],
                shapes,
                *self.gradients@[gradients[k].id],
            )
        &&& forall|k: int|
            0 <= k < traps.len() ==> *self.gradients@[(#[trigger] traps[k]).id] == trap_resolved(
                traps[k],
            )
    }

    /// The table of the sampling windows holds what the records describe.
    pub open spec fn adcs_agree(&self, adcs: Seq<parse_file::Adc>) -> bool {
        &&& forall|id: u32| self.adcs@.contains_key(id) <==> adc_ids(adcs).contains(id)
        &&& forall|k: int|
            0 <= k < adcs.len() ==> *self.adcs@[(#[trigger] adcs[k]).id] == adc_resolved(adcs[k])
    }

    /// The tables hold what the records of a file describe.
    pub open spec fn agree(
        &self,
        shapes: Seq<parse_file::Shape>,
        delays: Seq<parse_file::Delay>,
        adcs: Seq<parse_file::Adc>,
        rfs: Seq<parse_file::Rf>,
        gradients: Seq<parse_file::Gradient>,
        traps: Seq<parse_file::Trap>,
    ) -> bool {
        &&& self.rfs_agree(rfs, shape_table(shapes))
        &&& self.gradients_agree(gradients, traps, shape_table(shapes))
        &&& self.adcs_agree(adcs)
        &&& self.delays@ == delay_table(delays)
    }
}

/// Wraps the shapes of a file for sharing.
fn share_shapes(shapes: Vec<parse_file::Shape>) -> (entries: Vec<(u32, Arc<Shape>)>)
    ensures
        entries@.len() == shapes@.len(),
        forall|i: int|
            0 <= i < shapes@.len() ==> (#[trigger] entries@[i]).0 == shapes@[i].id
                && entries@[i].1.0@ == shapes@[i].samples@,
{
    let mut entries: Vec<(u32, Arc<Shape>)> = Vec::new();
    for shape in it: shapes
        invariant
            it.seq() == shapes@,
            entries@.len() == it.index(),
            forall|i: int|
                0 <= i < it.index() ==> (#[trigger] entries@[i]).0 == shapes@[i].id
                    && entries@[i].1.0@ == shapes@[i].samples@,
    {
        let parse_file::Shape { id, samples } = shape;
        entries.push((id, Arc::new(Shape(samples))));
    }
    entries
}

/// Takes the shapes of a file into a store.
pub fn shape_library(shapes: Vec<parse_file::Shape>) -> (lib: Result<ShapeLib, ConversionError>)
    ensures
        match lib {
            Ok(lib) => shapes_failure(shapes@) is None && lib.wf() && lib@ == shape_table(shapes@),
            Err(e) => shapes_failure(shapes@) == Some(e),
        },
{
    let entries: Vec<(u32, Arc<Shape>)> = share_shapes(shapes);
    assert(ids_of(entries@) =~= shape_ids(shapes@));
    let table: HashMap<u32, Arc<Shape>> = match convert_sec(SectionType::Shapes, entries) {
        Ok(table) => table,
        Err(e) => {
            return Err(e);
        },
    };
    let ghost by_id = table@;
    match ShapeLib::new(table) {
        Ok(lib) => {
            proof {
                let ids = shape_ids(shapes@);
                assert forall|id: u32| #[trigger] ids.contains(id) implies shape_views(by_id)[id]
                    == shape_table(shapes@)[id] by {
                    let k = ids.index_of(id);
                    assert(0 <= k < ids.len() && ids[k] == id);
                    assert(entries@[k].0 == id);
                }
                assert(shape_views(by_id) =~= shape_table(shapes@));
            }
            Ok(lib)
        },
        Err(e) => Err(e),
    }
}

/// Files the delays of a file.
pub fn delay_map(delays: &Vec<parse_file::Delay>) -> (table: Result<
    HashMap<u32, Fixed>,
    ConversionError,
>)
    ensures
        match table {
            Ok(table) => delay_ids(delays@).no_duplicates() && table@ == delay_table(delays@),
            Err(e) => reuse(delay_ids(delays@), SectionType::Delays) == Some(e),
        },
{
    let entries: Vec<(u32, Fixed)> = convert_delays(delays);
    assert(ids_of(entries@) =~= delay_ids(delays@));
    match convert_sec(SectionType::Delays, entries) {
        Ok(table) => {
            proof {
                let ids = delay_ids(delays@);
                assert forall|id: u32| #[trigger] ids.contains(id) implies table@[id]
                    == delay_table(delays@)[id] by {
                    let k = ids.index_of(id);
                    assert(0 <= k < ids.len() && ids[k] == id);
                    assert(entries@[k].0 == id);
                }
                assert(table@ =~= delay_table(delays@));
            }
            Ok(table)
        },
        Err(e) => Err(e),
    }
}

/// Files the sampling windows of a file.
pub fn adc_map(adcs: &Vec<parse_file::Adc>) -> (table: Result<
    HashMap<u32, Arc<Adc>>,
    ConversionError,
>)
    ensures
        match table {
            Ok(table) => {
                &&& adc_ids(adcs@).no_duplicates()
                &&& forall|id: u32| table@.contains_key(id) <==> adc_ids(adcs@).contains(id)
                &&& forall|k: int|
                    0 <= k < adcs@.len() ==> *table@[(#[trigger] adcs@[k]).id] == adc_resolved(
                        adcs@[k],
                    )
            },
            Err(e) => reuse(adc_ids(adcs@), SectionType::Adcs) == Some(e),
        },
{
    let entries: Vec<(u32, Arc<Adc>)> = convert_adcs(adcs);
    assert(ids_of(entries@) =~= adc_ids(adcs@));
    match convert_sec(SectionType::Adcs, entries) {
        Ok(table) => {
            assert forall|k: int| 0 <= k < adcs@.len() implies *table@[(#[trigger] adcs@[k]).id]
                == adc_resolved(adcs@[k]) by {
                assert(entries@[k].0 == adcs@[k].id);
            }
            Ok(table)
        },
        Err(e) => Err(e),
    }
}

/// Resolves and files the pulses of a file.
pub fn rf_map(rfs: &Vec<parse_file::Rf>, lib: &mut ShapeLib) -> (table: Result<
    HashMap<u32, Arc<Rf>>,
    ConversionError,
>)
    requires
        old(lib).wf(),
    ensures
        final(lib).wf(),
        final(lib)@ == old(lib)@,
        match table {
            Ok(table) => {
                &&& first_rf_failure(rfs@, old(lib)@, rfs@.len() as int) is None
                &&& rf_ids(rfs@).no_duplicates()
                &&& forall|id: u32| table@.contains_key(id) <==> rf_ids(rfs@).contains(id)
                &&& forall|k: int|
                    0 <= k < rfs@.len() ==> rf_resolves(
                        #[trigger] rfs@[k],
                        old(lib)@,
                        *table@[rfs@[k].id],
                    )
            },
            Err(e) => first_of(
                first_rf_failure(rfs@, old(lib)@, rfs@.len() as int),
                reuse(rf_ids(rfs@), SectionType::Rfs),
            ) == Some(e),
        },
{
    let entries: Vec<(u32, Arc<Rf>)> = match convert_rfs(rfs, lib) {
        Ok(entries) => entries,
        Err(e) => {
            return Err(e);
        },
    };
    assert(ids_of(entries@) =~= rf_ids(rfs@));
    match convert_sec(SectionType::Rfs, entries) {
        Ok(table) => {
            assert forall|k: int| 0 <= k < rfs@.len() implies rf_resolves(
                #[trigger] rfs@[k],
                old(lib)@,
                *table@[rfs@[k].id],
            ) by {
                assert(entries@[k].0 == rfs@[k].id);
            }
            Ok(table)
        },
        Err(e) => Err(e),
    }
}

/// The identifiers of the trapezoids of a file.
fn trap_keys(traps: &Vec<parse_file::Trap>) -> (keys: Vec<(u32, ())>)
    ensures
        ids_of(keys@) == trap_ids(traps@),
{
    let mut keys: Vec<(u32, ())> = Vec::new();
    let mut i: usize = 0;
    while i < traps.len()
        invariant
            i <= traps@.len(),
            keys@.len() == i,
            forall|j: int| 0 <= j < i ==> (#[trigger] keys@[j]).0 == traps@[j].id,
        decreases traps.len() - i,
    {
        keys.push((traps[i].id, ()));
        i = i + 1;
    }
    assert(ids_of(keys@) =~= trap_ids(traps@));
    keys
}

/// Resolves and files the gradients of a file, of both kinds.
pub fn gradient_map(
    gradients: &Vec<parse_file::Gradient>,
    traps: &Vec<parse_file::Trap>,
    lib: &mut ShapeLib,
) -> (table: Result<HashMap<u32, Arc<Gradient>>, ConversionError>)
    requires
        old(lib).wf(),
    ensures
        final(lib).wf(),
        final(lib)@ == old(lib)@,
        match table {
            Ok(table) => {
                &&& first_gradient_failure(gradients@, old(lib)@, gradients@.len() as int) is None
                &&& gradient_ids(gradients@).no_duplicates()
                &&& trap_ids(traps@).no_duplicates()
                &&& !collide(gradients@, traps@)
                &&& forall|id: u32|
                    table@.contains_key(id) <==> gradient_ids(gradients@).contains(id) || trap_ids(
                        traps@,
                    ).contains(id)
                &&& forall|k: int|
                    0 <= k < gradients@.len() ==> gradient_resolves(
                        #[trigger] gradients@[k],
                        old(lib)@,
                        *table@[gradients@[k].id],
                    )
                &&& forall|k: int|
                    0 <= k < traps@.len() ==> *table@[(#[trigger] traps@[k]).id] == trap_resolved(
                        traps@[k],
                    )
            },
            Err(e) => first_of(
                first_gradient_failure(gradients@, old(lib)@, gradients@.len() as int),
                first_of(
                    reuse(gradient_ids(gradients@), SectionType::Gradients),
                    first_of(
                        reuse(trap_ids(traps@), SectionType::Traps),
                        collision(gradients@, traps@),
                    ),
                ),
            ) == Some(e),
        },
{
    let entries: Vec<(u32, Arc<Gradient>)> = match convert_gradients(gradients, lib) {
        Ok(entries) => entries,
        Err(e) => {
            return Err(e);
        },
    };
    assert(ids_of(entries@) =~= gradient_ids(gradients@));
    let free: HashMap<u32, Arc<Gradient>> = match convert_sec(SectionType::Gradients, entries) {
        Ok(table) => table,
        Err(e) => {
            return Err(e);
        },
    };
    match convert_sec(SectionType::Traps, trap_keys(traps)) {
        Ok(_) => {},
        Err(e) => {
            return Err(e);
        },
    }
    let trap_entries: Vec<(u32, Arc<Gradient>)> = convert_traps(traps);
    assert(ids_of(trap_entries@) =~= trap_ids(traps@));
    match merge_traps(free, trap_entries) {
        Ok(table) => {
            proof {
                let gids = gradient_ids(gradients@);
                let tids = trap_ids(traps@);
                if collide(gradients@, traps@) {
                    let (i, j) = choose|i: int, j: int|
                        0 <= i < gradients@.len() && 0 <= j < traps@.len() && (
                        #[trigger] gradients@[i]).id == (#[trigger] traps@[j]).id;
                    assert(gids[i] == gradients@[i].id);
                    assert(gids.contains(traps@[j].id));
                    assert(trap_entries@[j].0 == traps@[j].id);
                }
                assert forall|k: int| 0 <= k < gradients@.len() implies gradient_resolves(
                    #[trigger] gradients@[k],
                    old(lib)@,
                    *table@[gradients@[k].id],
                ) by {
                    assert(entries@[k].0 == gradients@[k].id);
                    assert(gids[k] == gradients@[k].id);
                    assert(gids.contains(gradients@[k].id));
                }
                assert forall|k: int| 0 <= k < traps@.len() implies *table@[(
                #[trigger] traps@[k]).id] == trap_resolved(traps@[k]) by {
                    assert(trap_entries@[k].0 == traps@[k].id);
                }
            }
            Ok(table)
        },
        Err(e) => {
            proof {
                let j = choose|j: int|
                    0 <= j < trap_entries@.len() && free@.contains_key(
                        (#[trigger] trap_entries@[j]).0,
                    );
                let gids = gradient_ids(gradients@);
                assert(gids.contains(trap_entries@[j].0));
                let i = choose|i: int| 0 <= i < gids.len() && gids[i] == trap_entries@[j].0;
                assert(gradients@[i].id == traps@[j].id);
            }
            Err(e)
        },
    }
}

/// Resolves the events of a file and files them under their identifiers.
pub fn build_tables(
    shapes: Vec<parse_file::Shape>,
    delays: &Vec<parse_file::Delay>,
    adcs: &Vec<parse_file::Adc>,
    rfs: &Vec<parse_file::Rf>,
    gradients: &Vec<parse_file::Gradient>,
    traps: &Vec<parse_file::Trap>,
) -> (tables: Result<Tables, ConversionError>)
    ensures
        match tables {
            Ok(tables) => {
                &&& tables_failure(shapes@, delays@, adcs@, rfs@, gradients@, traps@) is None
                &&& tables.agree(shapes@, delays@, adcs@, rfs@, gradients@, traps@)
            },
            Err(e) => tables_failure(shapes@, delays@, adcs@, rfs@, gradients@, traps@) == Some(e),
        },
{
    let mut lib: ShapeLib = match shape_library(shapes) {
        Ok(lib) => lib,
        Err(e) => {
            return Err(e);
        },
    };
    let delay_table: HashMap<u32, Fixed> = match delay_map(delays) {
        Ok(table) => table,
        Err(e) => {
            return Err(e);
        },
    };
    let adc_table: HashMap<u32, Arc<Adc>> = match adc_map(adcs) {
        Ok(table) => table,
        Err(e) => {
            return Err(e);
        },
    };
    let rf_table: HashMap<u32, Arc<Rf>> = match rf_map(rfs, &mut lib) {
        Ok(table) => table,
        Err(e) => {
            return Err(e);
        },
    };
    let gradient_table: HashMap<u32, Arc<Gradient>> = match gradient_map(
        gradients,
        traps,
        &mut lib,
    ) {
        Ok(table) => table,
        Err(e) => {
            return Err(e);
        },
    };
    Ok(Tables { rfs: rf_table, gradients: gradient_table, adcs: adc_table, delays: delay_table })
}

} // verus!

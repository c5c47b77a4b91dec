//! From the sections of a file to a sequence.

use vstd::prelude::*;
use std::collections::HashMap;
use std::sync::Arc;
use crate::error::{
    ConversionError, Error, ParseError, ParseErrorModel, SectionType, ShapeDecompressionError,
};
use crate::fixed::Fixed;
use crate::parse_file;
use crate::parse_file::file::{
    file_of, parsed_file, plain_section, section_at, sections_from, start_of, version_section,
};
use crate::parse_file::texts::version_at;
use crate::parse_file::{
    dialect_of, models_of, Dialect, Section, SectionModel, Version, VersionModel,
};
use crate::sequence::blocks::{block_duration, block_failure, convert_block, first_of, slot};
use crate::sequence::definitions::{convert_defs, definitions_failure, Defs};
use crate::sequence::events::{adc_resolved, gradient_resolves, rf_resolves, trap_resolved};
use crate::sequence::extract::{
    all_adcs, all_blocks, all_definitions, all_delays, all_gradients, all_rfs, all_shapes,
    all_traps, all_versions, extract, versions_in, Extracted,
};
use crate::sequence::tables::{
    adc_ids, build_tables, collide, delay_ids, delay_table, gradient_ids, kinds_failure, rf_ids,
    shape_table, tables_failure, trap_ids, Tables,
};
use crate::sequence::{Adc, Block, Gradient, Rf, Sequence, TimeRaster};

verus! {

/// The identifiers of a list of records, in the order of the list.
pub open spec fn ids_of<Val>(entries: Seq<(u32, Val)>) -> Seq<u32> {
    Seq::new(entries.len(), |i: int| entries[i].0)
}

/// Files the records of one kind of section under their identifiers.
///
/// Fails with [`ConversionError::EventIdReuse`] of `ty` where, and only where,
/// two of the records share an identifier.
pub fn convert_sec<Val>(ty: SectionType, entries: Vec<(u32, Val)>) -> (table: Result<
    HashMap<u32, Val>,
    ConversionError,
>)
    ensures
        match table {
            Ok(by_id) => {
                &&& ids_of(entries@).no_duplicates()
                &&& forall|id: u32| by_id@.contains_key(id) <==> ids_of(entries@).contains(id)
                &&& forall|i: int|
                    0 <= i < entries@.len() ==> by_id@[(#[trigger] entries@[i]).0] == entries@[i].1
            },
            Err(e) => e == ConversionError::EventIdReuse(ty) && !ids_of(entries@).no_duplicates(),
        },
{
    broadcast use vstd::std_specs::hash::group_hash_axioms;

    let mut by_id: HashMap<u32, Val> = HashMap::new();
    for entry in it: entries
        invariant
            it.seq() == entries@,
            ids_of(entries@).take(it.index() as int).no_duplicates(),
            forall|id: u32|
                by_id@.contains_key(id) <==> ids_of(entries@).take(it.index() as int).contains(id),
            forall|i: int|
                0 <= i < it.index() ==> by_id@[(#[trigger] entries@[i]).0] == entries@[i].1,
    {
        let ghost n = it.index() as int;
        let ghost ids = ids_of(entries@);
        let (id, value) = entry;
        assert(ids[n] == id);
        if by_id.contains_key(&id) {
            proof {
                let j = choose|j: int| 0 <= j < n && ids.take(n)[j] == id;
                assert(ids[j] == ids[n]);
            }
            return Err(ConversionError::EventIdReuse(ty));
        }
        by_id.insert(id, value);
        proof {
            let before = ids.take(n);
            let now = ids.take(n + 1);
            assert(now =~= before.push(id));
            assert forall|a: int, b: int| 0 <= a < b < now.len() implies #[trigger] now[a]
                != #[trigger] now[b] by {
                if b == n {
                    assert(before[a] == ids[a]);
                    assert(before.contains(ids[a]));
                } else {
                    assert(before[a] != before[b]);
                }
            }
            assert forall|k: u32| by_id@.contains_key(k) <==> now.contains(k) by {
                if before.contains(k) {
                    let j = choose|j: int| 0 <= j < n && before[j] == k;
                    assert(now[j] == k);
                }
                if k == id {
                    assert(now[n] == k);
                }
                if now.contains(k) && k != id {
                    let j = choose|j: int| 0 <= j < now.len() && now[j] == k;
                    assert(before[j] == k);
                }
            }
            assert forall|i: int| 0 <= i < n + 1 implies by_id@[(#[trigger] entries@[i]).0]
                == entries@[i].1 by {
                if i < n {
                    assert(before[i] == entries@[i].0);
                    assert(before.contains(entries@[i].0));
                }
            }
        }
    }
    assert(ids_of(entries@).take(entries@.len() as int) =~= ids_of(entries@));
    Ok(by_id)
}

/// The identifiers that stand in a list.
pub open spec fn id_set(ids: Seq<u32>) -> Set<u32> {
    Set::new(|id: u32| ids.contains(id))
}

/// The failure of the first among the first `n` blocks that names an event
/// which is not there.
pub open spec fn first_block_failure(
    blocks: Seq<parse_file::Block>,
    rfs: Set<u32>,
    gradients: Set<u32>,
    adcs: Set<u32>,
    delays: Set<u32>,
    n: int,
) -> Option<ConversionError>
    decreases n,
{
    if n <= 0 {
        None
    } else {
        first_of(
            first_block_failure(blocks, rfs, gradients, adcs, delays, n - 1),
            block_failure(blocks[n - 1], rfs, gradients, adcs, delays),
        )
    }
}

/// A failure found among the first `n` blocks is the one found among all.
pub proof fn lemma_first_block_failure_stays(
    blocks: Seq<parse_file::Block>,
    rfs: Set<u32>,
    gradients: Set<u32>,
    adcs: Set<u32>,
    delays: Set<u32>,
    n: int,
    m: int,
)
    requires
        0 <= n <= m,
        first_block_failure(blocks, rfs, gradients, adcs, delays, n) is Some,
    ensures
        first_block_failure(blocks, rfs, gradients, adcs, delays, m) == first_block_failure(
            blocks,
            rfs,
            gradients,
            adcs,
            delays,
            n,
        ),
    decreases m - n,
{
    if n < m {
        lemma_first_block_failure_stays(blocks, rfs, gradients, adcs, delays, n, m - 1);
    }
}

/// Why a file is not a sequence, if it is not. The checks come in this
/// order: the number of version sections, the definitions, the events kind
/// by kind, the blocks.
pub open spec fn failure(sections: Seq<Section>) -> Option<ConversionError> {
    let versions = all_versions(sections);
    if versions.len() != 1 {
        Some(ConversionError::VersionSectionCount(versions.len() as usize))
    } else {
        first_of(
            definitions_failure(all_definitions(sections), versions[0].has_mandatory_rasters()),
            first_of(
                tables_failure(
                    all_shapes(sections),
                    all_delays(sections),
                    all_adcs(sections),
                    all_rfs(sections),
                    all_gradients(sections),
                    all_traps(sections),
                ),
                first_block_failure(
                    all_blocks(sections),
                    id_set(rf_ids(all_rfs(sections))),
                    id_set(gradient_ids(all_gradients(sections))).union(
                        id_set(trap_ids(all_traps(sections))),
                    ),
                    id_set(adc_ids(all_adcs(sections))),
                    id_set(delay_ids(all_delays(sections))),
                    all_blocks(sections).len() as int,
                ),
            ),
        )
    }
}

/// An arbitrary gradient and a trapezoid that share an identifier make a
/// file fail, wherever the two stand in it. The failure is
/// [`ConversionError::GradTrapIdReuse`] unless an earlier check fails: of the
/// version sections, of the definitions, or of the events kind by kind. The
/// blocks are never looked at.
pub proof fn lemma_shared_id_is_refused(sections: Seq<Section>)
    requires
        collide(all_gradients(sections), all_traps(sections)),
    ensures
        failure(sections) is Some,
        failure(sections) == if all_versions(sections).len() != 1 {
            Some(ConversionError::VersionSectionCount(all_versions(sections).len() as usize))
        } else {
            first_of(
                definitions_failure(
                    all_definitions(sections),
                    all_versions(sections)[0].has_mandatory_rasters(),
                ),
                first_of(
                    kinds_failure(
                        all_shapes(sections),
                        all_delays(sections),
                        all_adcs(sections),
                        all_rfs(sections),
                        all_gradients(sections),
                        all_traps(sections),
                    ),
                    Some(ConversionError::GradTrapIdReuse),
                ),
            )
        },
{
}

/// The slot for the pulse holds what the identifier names among the records
/// of a file.
pub open spec fn rf_slot_resolves(
    id: u32,
    held: Option<Arc<Rf>>,
    rfs: Seq<parse_file::Rf>,
    shapes: Map<u32, Seq<Fixed>>,
) -> bool {
    match held {
        None => id == 0,
        Some(rf) => id != 0 && exists|k: int|
            0 <= k < rfs.len() && (#[trigger] rfs[k]).id == id && rf_resolves(rfs[k], shapes, *rf),
    }
}

/// The slot for a gradient holds what the identifier names among the records
/// of a file, of arbitrary gradients or of trapezoids.
pub open spec fn gradient_slot_resolves(
    id: u32,
    held: Option<Arc<Gradient>>,
    gradients: Seq<parse_file::Gradient>,
    traps: Seq<parse_file::Trap>,
    shapes: Map<u32, Seq<Fixed>>,
) -> bool {
    match held {
        None => id == 0,
        Some(gradient) => id != 0 && {
            ||| exists|k: int|
                0 <= k < gradients.len() && (#[trigger] gradients[k]).id == id
                    && gradient_resolves(gradients[k], shapes, *gradient)
            ||| exists|k: int|
                0 <= k < traps.len() && (#[trigger] traps[k]).id == id && *gradient
                    == trap_resolved(traps[k])
        },
    }
}

/// The slot for the sampling window holds what the identifier names among
/// the records of a file.
pub open spec fn adc_slot_resolves(id: u32, held: Option<Arc<Adc>>, adcs: Seq<parse_file::Adc>)
    -> bool {
    match held {
        None => id == 0,
        Some(adc) => id != 0 && exists|k: int|
            0 <= k < adcs.len() && (#[trigger] adcs[k]).id == id && *adc == adc_resolved(adcs[k]),
    }
}

/// `block` is what the record `raw` describes in the file `sections`.
pub open spec fn block_resolves(
    raw: parse_file::Block,
    block: Block,
    sections: Seq<Section>,
    raster: TimeRaster,
) -> bool {
    let shapes = shape_table(all_shapes(sections));
    &&& block.id == raw.id
    &&& rf_slot_resolves(raw.rf, block.rf, all_rfs(sections), shapes)
    &&& gradient_slot_resolves(
        raw.gx,
        block.gx,
        all_gradients(sections),
        all_traps(sections),
        shapes,
    )
    &&& gradient_slot_resolves(
        raw.gy,
        block.gy,
        all_gradients(sections),
        all_traps(sections),
        shapes,
    )
    &&& gradient_slot_resolves(
        raw.gz,
        block.gz,
        all_gradients(sections),
        all_traps(sections),
        shapes,
    )
    &&& adc_slot_resolves(raw.adc, block.adc, all_adcs(sections))
    &&& block.duration == block_duration(
        raw.dur,
        block,
        delay_table(all_delays(sections)),
        raster,
    )
}

/// The identifiers of the gradients that a record names, on x, y and z.
pub open spec fn gradient_refs(raw: parse_file::Block) -> Seq<u32> {
    seq![raw.gx, raw.gy, raw.gz]
}

/// The gradients of a block, on x, y and z.
pub open spec fn gradient_slots(block: Block) -> Seq<Option<Arc<Gradient>>> {
    seq![block.gx, block.gy, block.gz]
}

/// Two blocks hold the same event wherever their records name the same.
pub open spec fn shares(
    raw_a: parse_file::Block,
    a: Block,
    raw_b: parse_file::Block,
    b: Block,
) -> bool {
    &&& raw_a.rf == raw_b.rf ==> a.rf == b.rf
    &&& raw_a.adc == raw_b.adc ==> a.adc == b.adc
    &&& forall|p: int, q: int|
        0 <= p < 3 && 0 <= q < 3 && gradient_refs(raw_a)[p] == gradient_refs(raw_b)[q]
            ==> #[trigger] gradient_slots(a)[p] == #[trigger] gradient_slots(b)[q]
}

/// `sequence` is what the file `sections` describes.
pub open spec fn resolves(sections: Seq<Section>, sequence: Sequence) -> bool {
    let raws = all_blocks(sections);
    &&& (Defs {
        name: sequence.name,
        fov: sequence.fov,
        time_raster: sequence.time_raster,
        defs: sequence.definitions,
    }).reads(all_definitions(sections), all_versions(sections)[0].has_mandatory_rasters())
    &&& sequence.blocks@.len() == raws.len()
    &&& forall|i: int|
        0 <= i < raws.len() ==> block_resolves(
            raws[i],
            #[trigger] sequence.blocks@[i],
            sections,
            sequence.time_raster,
        )
    &&& forall|i: int, j: int|
        0 <= i < raws.len() && 0 <= j < raws.len() ==> shares(
            raws[i],
            #[trigger] sequence.blocks@[i],
            raws[j],
            #[trigger] sequence.blocks@[j],
        )
}

/// `block` holds what the record `raw` names in the tables.
pub open spec fn placed(
    raw: parse_file::Block,
    block: Block,
    tables: Tables,
    raster: TimeRaster,
) -> bool {
    &&& block_failure(
        raw,
        tables.rfs@.dom(),
        tables.gradients@.dom(),
        tables.adcs@.dom(),
        tables.delays@.dom(),
    ) is None
    &&& block.id == raw.id
    &&& block.rf == slot(tables.rfs@, raw.rf)
    &&& block.gx == slot(tables.gradients@, raw.gx)
    &&& block.gy == slot(tables.gradients@, raw.gy)
    &&& block.gz == slot(tables.gradients@, raw.gz)
    &&& block.adc == slot(tables.adcs@, raw.adc)
    &&& block.duration == block_duration(raw.dur, block, tables.delays@, raster)
}

/// Resolves the blocks of a file, in their order, and stops at the first
/// that names an event which is not there.
pub fn convert_blocks(blocks: &Vec<parse_file::Block>, tables: &Tables, raster: &TimeRaster) -> (
    resolved: Result<Vec<Block>, ConversionError>)
    ensures
        match resolved {
            Ok(resolved) => {
                &&& first_block_failure(
                    blocks@,
                    tables.rfs@.dom(),
                    tables.gradients@.dom(),
                    tables.adcs@.dom(),
                    tables.delays@.dom(),
                    blocks@.len() as int,
                ) is None
                &&& resolved@.len() == blocks@.len()
                &&& forall|i: int|
                    0 <= i < blocks@.len() ==> placed(
                        blocks@[i],
                        #[trigger] resolved@[i],
                        *tables,
                        *raster,
                    )
            },
            Err(e) => first_block_failure(
                blocks@,
                tables.rfs@.dom(),
                tables.gradients@.dom(),
                tables.adcs@.dom(),
                tables.delays@.dom(),
                blocks@.len() as int,
            ) == Some(e),
        },
{
    let mut resolved: Vec<Block> = Vec::new();
    let mut i: usize = 0;
    while i < blocks.len()
        invariant
            i <= blocks@.len(),
            first_block_failure(
                blocks@,
                tables.rfs@.dom(),
                tables.gradients@.dom(),
                tables.adcs@.dom(),
                tables.delays@.dom(),
                i as int,
            ) is None,
            resolved@.len() == i,
            forall|j: int|
                0 <= j < i ==> placed(blocks@[j], #[trigger] resolved@[j], *tables, *raster),
        decreases blocks.len() - i,
    {
        match convert_block(
            blocks[i],
            &tables.rfs,
            &tables.gradients,
            &tables.adcs,
            &tables.delays,
            raster,
        ) {
            Ok(block) => {
                resolved.push(block);
            },
            Err(e) => {
                proof {
                    lemma_first_block_failure_stays(
                        blocks@,
                        tables.rfs@.dom(),
                        tables.gradients@.dom(),
                        tables.adcs@.dom(),
                        tables.delays@.dom(),
                        i + 1,
                        blocks@.len() as int,
                    );
                }
                return Err(e);
            },
        }
        i = i + 1;
    }
    Ok(resolved)
}

/// A block that holds what its record names in the tables of a file is what
/// the record describes in the file.
proof fn lemma_placed_resolves(
    raw: parse_file::Block,
    block: Block,
    tables: Tables,
    raster: TimeRaster,
    sections: Seq<Section>,
)
    requires
        placed(raw, block, tables, raster),
        tables.agree(
            all_shapes(sections),
            all_delays(sections),
            all_adcs(sections),
            all_rfs(sections),
            all_gradients(sections),
            all_traps(sections),
        ),
    ensures
        block_resolves(raw, block, sections, raster),
{
    let shapes = shape_table(all_shapes(sections));
    let rfs = all_rfs(sections);
    let gradients = all_gradients(sections);
    let traps = all_traps(sections);
    let adcs = all_adcs(sections);
    assert(tables.rfs_agree(rfs, shapes));
    assert(tables.gradients_agree(gradients, traps, shapes));
    assert(tables.adcs_agree(adcs));
    if block.rf is Some {
        let ids = rf_ids(rfs);
        assert(tables.rfs@.contains_key(raw.rf));
        assert(ids.contains(raw.rf));
        let k = choose|k: int| 0 <= k < ids.len() && ids[k] == raw.rf;
        assert(rfs[k].id == raw.rf);
        assert(rf_resolves(rfs[k], shapes, *tables.rfs@[rfs[k].id]));
    }
    lemma_gradient_slot(raw.gx, tables, gradients, traps, shapes);
    lemma_gradient_slot(raw.gy, tables, gradients, traps, shapes);
    lemma_gradient_slot(raw.gz, tables, gradients, traps, shapes);
    if block.adc is Some {
        let ids = adc_ids(adcs);
        assert(tables.adcs@.contains_key(raw.adc));
        assert(ids.contains(raw.adc));
        let k = choose|k: int| 0 <= k < ids.len() && ids[k] == raw.adc;
        assert(adcs[k].id == raw.adc);
        assert(*tables.adcs@[adcs[k].id] == adc_resolved(adcs[k]));
    }
}

/// What an identifier names in the table of the gradients is what it names
/// among the records.
proof fn lemma_gradient_slot(
    id: u32,
    tables: Tables,
    gradients: Seq<parse_file::Gradient>,
    traps: Seq<parse_file::Trap>,
    shapes: Map<u32, Seq<Fixed>>,
)
    requires
        tables.gradients_agree(gradients, traps, shapes),
        id == 0 || tables.gradients@.contains_key(id),
    ensures
        gradient_slot_resolves(id, slot(tables.gradients@, id), gradients, traps, shapes),
{
    if slot(tables.gradients@, id) is Some {
        assert(tables.gradients@.contains_key(id));
        if gradient_ids(gradients).contains(id) {
            let ids = gradient_ids(gradients);
            let k = choose|k: int| 0 <= k < ids.len() && ids[k] == id;
            assert(gradients[k].id == id);
            assert(gradient_resolves(gradients[k], shapes, *tables.gradients@[gradients[k].id]));
        } else {
            let ids = trap_ids(traps);
            assert(ids.contains(id));
            let k = choose|k: int| 0 <= k < ids.len() && ids[k] == id;
            assert(traps[k].id == id);
            assert(*tables.gradients@[traps[k].id] == trap_resolved(traps[k]));
        }
    }
}

/// The identifiers under which the tables of a file hold events are those of
/// its records.
proof fn lemma_table_domains(tables: Tables, sections: Seq<Section>)
    requires
        tables.agree(
            all_shapes(sections),
            all_delays(sections),
            all_adcs(sections),
            all_rfs(sections),
            all_gradients(sections),
            all_traps(sections),
        ),
    ensures
        tables.rfs@.dom() == id_set(rf_ids(all_rfs(sections))),
        tables.gradients@.dom() == id_set(gradient_ids(all_gradients(sections))).union(
            id_set(trap_ids(all_traps(sections))),
        ),
        tables.adcs@.dom() == id_set(adc_ids(all_adcs(sections))),
        tables.delays@.dom() == id_set(delay_ids(all_delays(sections))),
{
    assert(tables.rfs@.dom() =~= id_set(rf_ids(all_rfs(sections))));
    assert(tables.gradients@.dom() =~= id_set(gradient_ids(all_gradients(sections))).union(
        id_set(trap_ids(all_traps(sections))),
    ));
    assert(tables.adcs@.dom() =~= id_set(adc_ids(all_adcs(sections))));
    assert(tables.delays@.dom() =~= id_set(delay_ids(all_delays(sections))));
}

/// Blocks that hold what their records name in the tables of a file are what
/// the records describe, and share what they name alike.
proof fn lemma_blocks_resolve(
    raws: Seq<parse_file::Block>,
    blocks: Seq<Block>,
    tables: Tables,
    raster: TimeRaster,
    sections: Seq<Section>,
)
    requires
        raws.len() == blocks.len(),
        forall|i: int| 0 <= i < raws.len() ==> placed(raws[i], #[trigger] blocks[i], tables, raster),
        tables.agree(
            all_shapes(sections),
            all_delays(sections),
            all_adcs(sections),
            all_rfs(sections),
            all_gradients(sections),
            all_traps(sections),
        ),
    ensures
        forall|i: int|
            0 <= i < raws.len() ==> block_resolves(raws[i], #[trigger] blocks[i], sections, raster),
        forall|i: int, j: int|
            0 <= i < raws.len() && 0 <= j < raws.len() ==> shares(
                raws[i],
                #[trigger] blocks[i],
                raws[j],
                #[trigger] blocks[j],
            ),
{
    assert forall|i: int| 0 <= i < raws.len() implies block_resolves(
        raws[i],
        #[trigger] blocks[i],
        sections,
        raster,
    ) by {
        lemma_placed_resolves(raws[i], blocks[i], tables, raster, sections);
    }
    assert forall|i: int, j: int| 0 <= i < raws.len() && 0 <= j < raws.len() implies shares(
        raws[i],
        #[trigger] blocks[i],
        raws[j],
        #[trigger] blocks[j],
    ) by {
        lemma_placed_share(raws[i], blocks[i], raws[j], blocks[j], tables, raster);
    }
}

/// Two blocks that hold what their records name in the same tables share
/// what they name alike.
proof fn lemma_placed_share(
    raw_a: parse_file::Block,
    a: Block,
    raw_b: parse_file::Block,
    b: Block,
    tables: Tables,
    raster: TimeRaster,
)
    requires
        placed(raw_a, a, tables, raster),
        placed(raw_b, b, tables, raster),
    ensures
        shares(raw_a, a, raw_b, b),
{
    assert forall|p: int, q: int|
        0 <= p < 3 && 0 <= q < 3 && gradient_refs(raw_a)[p] == gradient_refs(
            raw_b,
        )[q] implies #[trigger] gradient_slots(a)[p] == #[trigger] gradient_slots(b)[q] by {
        assert(gradient_slots(a)[p] == slot(tables.gradients@, gradient_refs(raw_a)[p]));
        assert(gradient_slots(b)[q] == slot(tables.gradients@, gradient_refs(raw_b)[q]));
    }
}

/// Resolves the sections of a file into a sequence.
///
/// The file must hold one version section. Its definitions are read, its
/// events are resolved and filed under their identifiers, and each block is
/// given the events that it names and its length.
pub fn from_raw(sections: Vec<Section>) -> (sequence: Result<Sequence, ConversionError>)
    ensures
        match sequence {
            Ok(sequence) => failure(sections@) is None && resolves(sections@, sequence),
            Err(e) => failure(sections@) == Some(e),
        },
{
    let Extracted { versions, definitions, blocks, rfs, gradients, traps, adcs, delays, shapes } =
        extract(sections);
    if versions.len() != 1 {
        return Err(ConversionError::VersionSectionCount(versions.len()));
    }
    let read: Defs = match convert_defs(&versions[0], definitions) {
        Ok(read) => read,
        Err(e) => {
            return Err(e);
        },
    };
    let tables: Tables = match build_tables(shapes, &delays, &adcs, &rfs, &gradients, &traps) {
        Ok(tables) => tables,
        Err(e) => {
            return Err(e);
        },
    };
    proof {
        lemma_table_domains(tables, sections@);
    }
    let resolved: Vec<Block> = match convert_blocks(&blocks, &tables, &read.time_raster) {
        Ok(resolved) => resolved,
        Err(e) => {
            return Err(e);
        },
    };
    let Defs { name, fov, time_raster, defs } = read;
    proof {
        lemma_blocks_resolve(blocks@, resolved@, tables, time_raster, sections@);
    }
    Ok(Sequence { time_raster, name, fov, definitions: defs, blocks: resolved })
}

/// The version of a file that has one version section and is written in a
/// dialect that cannot be resolved.
pub open spec fn unsupported(sections: Seq<Section>) -> Option<VersionModel> {
    if all_versions(sections).len() == 1 && dialect_of(all_versions(sections)[0].model()) is None {
        Some(all_versions(sections)[0].model())
    } else {
        None
    }
}

/// The version of a file that has one version section.
fn sole_version(sections: &Vec<Section>) -> (version: Option<&Version>)
    ensures
        match version {
            Some(version) => all_versions(sections@).len() == 1 && *version == all_versions(
                sections@,
            )[0],
            None => all_versions(sections@).len() != 1,
        },
{
    let mut count: usize = 0;
    let mut first: usize = 0;
    let mut i: usize = 0;
    assert(sections@.take(0) =~= Seq::<Section>::empty());
    while i < sections.len()
        invariant
            i <= sections@.len(),
            count <= i,
            count == all_versions(sections@.take(i as int)).len(),
            count >= 1 ==> first < i && sections@[first as int] == Section::Version(
                all_versions(sections@.take(i as int))[0],
            ),
        decreases sections.len() - i,
    {
        proof {
            let now = sections@.take(i + 1);
            assert(now.drop_last() =~= sections@.take(i as int));
            assert(now.last() == sections@[i as int]);
        }
        match &sections[i] {
            Section::Version(_) => {
                if count == 0 {
                    first = i;
                }
                count = count + 1;
            },
            _ => {},
        }
        i = i + 1;
    }
    assert(sections@.take(sections@.len() as int) =~= sections@);
    if count == 1 {
        match &sections[first] {
            Section::Version(version) => Some(version),
            _ => None,
        }
    } else {
        None
    }
}

/// The first version section of a list that starts with one is that one.
proof fn lemma_first_version(sections: Seq<Section>)
    requires
        sections.len() > 0,
        sections[0] is Version,
    ensures
        all_versions(sections).len() >= 1,
        all_versions(sections)[0] == sections[0]->Version_0,
    decreases sections.len(),
{
    let before = sections.drop_last();
    assert(all_versions(sections) == all_versions(before) + versions_in(sections.last()));
    if sections.len() > 1 {
        assert(before[0] == sections[0]);
        lemma_first_version(before);
    } else {
        assert(before =~= Seq::<Section>::empty());
        assert(sections.last() == sections[0]);
        assert(all_versions(before) =~= Seq::<Version>::empty());
    }
}

/// The sections that are read from a place where a version section stands
/// start with that section.
proof fn lemma_starts_with_version(
    text: Seq<char>,
    at: int,
    dialect: Dialect,
    version: VersionModel,
    next: int,
)
    requires
        version_at(text, at) == Some((version, next)),
        sections_from(text, at, dialect) is Ok,
    ensures
        sections_from(text, at, dialect)->Ok_0.0.len() == 0 || sections_from(
            text,
            at,
            dialect,
        )->Ok_0.0[0] == SectionModel::Version(version),
{
    assert(version_section(text, at) == Some((SectionModel::Version(version), next)));
    assert(plain_section(text, at, dialect) == Some((SectionModel::Version(version), next)));
    assert(section_at(text, at, dialect) == Ok::<
        Option<(SectionModel, int)>,
        ShapeDecompressionError,
    >(Some((SectionModel::Version(version), next))));
}

/// A text that is read as a file is written in a dialect that can be
/// resolved.
proof fn lemma_parsed_is_supported(text: Seq<char>, sections: Seq<Section>)
    requires
        parsed_file(text) == Ok::<Seq<SectionModel>, ParseErrorModel>(models_of(sections)),
    ensures
        unsupported(sections) is None,
{
    let start = start_of(text);
    let first = version_at(text, start);
    assert(first is Some);
    let version = first->Some_0.0;
    assert(dialect_of(version) is Some);
    let dialect = dialect_of(version)->Some_0;
    assert(file_of(text, dialect) == Ok::<Seq<SectionModel>, ParseErrorModel>(
        models_of(sections),
    ));
    let read = sections_from(text, start, dialect);
    assert(read is Ok && read->Ok_0.0 == models_of(sections));
    lemma_starts_with_version(text, start, dialect, version, first->Some_0.1);
    if sections.len() > 0 {
        assert(models_of(sections)[0] == sections[0].model());
        assert(sections[0] is Version);
        lemma_first_version(sections);
    } else {
        assert(all_versions(sections) =~= Seq::<Version>::empty());
    }
}

impl Sequence {
    /// Resolves the sections of a file into a sequence and checks it against
    /// the rules of timing and shape. A file whose one version section names
    /// a dialect other than 1.2, 1.3 and 1.4 is refused before anything else
    /// is looked at.
    pub fn from_parsed_file(sections: Vec<Section>) -> (sequence: Result<Sequence, Error>)
        ensures
            match sequence {
                Ok(sequence) => {
                    &&& unsupported(sections@) is None
                    &&& failure(sections@) is None
                    &&& resolves(sections@, sequence)
                    &&& sequence.violation() is None
                },
                Err(Error::ParseError(e)) => unsupported(sections@) is Some && e.model()
                    == ParseErrorModel::UnsupportedVersion(unsupported(sections@)->Some_0),
                Err(Error::ConversionError(e)) => unsupported(sections@) is None && failure(
                    sections@,
                ) == Some(e),
                Err(Error::ValidationError(e)) => {
                    &&& unsupported(sections@) is None
                    &&& failure(sections@) is None
                    &&& exists|sequence: Sequence|
                        resolves(sections@, sequence) && sequence.violation() == Some(e)
                },
            },
    {
        match sole_version(&sections) {
            Some(version) => match version.dialect() {
                Some(_) => {},
                None => {
                    return Err(Error::ParseError(ParseError::UnsupportedVersion(version.copy())));
                },
            },
            None => {},
        }
        let sequence: Sequence = match from_raw(sections) {
            Ok(sequence) => sequence,
            Err(e) => {
                return Err(Error::ConversionError(e));
            },
        };
        match sequence.validate() {
            Ok(()) => Ok(sequence),
            Err(e) => Err(Error::ValidationError(e)),
        }
    }

    /// Reads the text of a file, resolves it into a sequence and checks it
    /// against the rules of timing and shape.
    pub fn from_source(source: &str) -> (sequence: Result<Sequence, Error>)
        ensures
            match sequence {
                Ok(sequence) => exists|sections: Seq<Section>|
                    {
                        &&& parsed_file(source@) == Ok::<Seq<SectionModel>, ParseErrorModel>(
                            models_of(sections),
                        )
                        &&& failure(sections) is None
                        &&& resolves(sections, sequence)
                        &&& sequence.violation() is None
                    },
                Err(Error::ParseError(e)) => parsed_file(source@) == Err::<
                    Seq<SectionModel>,
                    ParseErrorModel,
                >(e.model()),
                Err(Error::ConversionError(e)) => exists|sections: Seq<Section>|
                    {
                        &&& parsed_file(source@) == Ok::<Seq<SectionModel>, ParseErrorModel>(
                            models_of(sections),
                        )
                        &&& failure(sections) == Some(e)
                    },
                Err(Error::ValidationError(e)) => exists|
                    sections: Seq<Section>,
                    sequence: Sequence,
                |
                    {
                        &&& parsed_file(source@) == Ok::<Seq<SectionModel>, ParseErrorModel>(
                            models_of(sections),
                        )
                        &&& failure(sections) is None
                        &&& resolves(sections, sequence)
                        &&& sequence.violation() == Some(e)
                    },
            },
    {
        let sections: Vec<Section> = match parse_file(source) {
            Ok(sections) => sections,
            Err(e) => {
                return Err(Error::ParseError(e));
            },
        };
        let ghost read = sections@;
        let result: Result<Sequence, Error> = Sequence::from_parsed_file(sections);
        proof {
            lemma_parsed_is_supported(source@, read);
            match result {
                Err(Error::ValidationError(e)) => {
                    let sequence = choose|sequence: Sequence|
                        resolves(read, sequence) && sequence.violation() == Some(e);
                    assert(parsed_file(source@) == Ok::<Seq<SectionModel>, ParseErrorModel>(
                        models_of(read),
                    ) && failure(read) is None && resolves(read, sequence)
                        && sequence.violation() == Some(e));
                },
                _ => {},
            }
        }
        result
    }
}

} // verus!

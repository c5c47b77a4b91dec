//! The records of a file, gathered by kind. Sections of one kind may stand
//! anywhere in a file and more than once; their records are taken together,
//! in the order of the file.

use vstd::prelude::*;
use crate::parse_file::{Adc, Block, Delay, Gradient, Rf, Section, Shape, Trap, Version};

verus! {

pub open spec fn versions_in(section: Section) -> Seq<Version> {
    match section {
        Section::Version(version) => seq![version],
        _ => Seq::empty(),
    }
}

pub open spec fn definitions_in(section: Section) -> Seq<(String, String)> {
    match section {
        Section::Definitions(records) => records@,
        _ => Seq::empty(),
    }
}

pub open spec fn blocks_in(section: Section) -> Seq<Block> {
    match section {
        Section::Blocks(records) => records@,
        _ => Seq::empty(),
    }
}

pub open spec fn rfs_in(section: Section) -> Seq<Rf> {
    match section {
        Section::Rfs(records) => records@,
        _ => Seq::empty(),
    }
}

pub open spec fn gradients_in(section: Section) -> Seq<Gradient> {
    match section {
        Section::Gradients(records) => records@,
        _ => Seq::empty(),
    }
}

pub open spec fn traps_in(section: Section) -> Seq<Trap> {
    match section {
        Section::Traps(records) => records@,
        _ => Seq::empty(),
    }
}

pub open spec fn adcs_in(section: Section) -> Seq<Adc> {
    match section {
        Section::Adcs(records) => records@,
        _ => Seq::empty(),
    }
}

pub open spec fn delays_in(section: Section) -> Seq<Delay> {
    match section {
        Section::Delays(records) => records@,
        _ => Seq::empty(),
    }
}

pub open spec fn shapes_in(section: Section) -> Seq<Shape> {
    match section {
        Section::Shapes(records) => records@,
        _ => Seq::empty(),
    }
}

/// The version sections of a file.
pub open spec fn all_versions(sections: Seq<Section>) -> Seq<Version>
    decreases sections.len(),
{
    if sections.len() == 0 {
        Seq::empty()
    } else {
        all_versions(sections.drop_last()) + versions_in(sections.last())
    }
}

/// The definitions of a file.
pub open spec fn all_definitions(sections: Seq<Section>) -> Seq<(String, String)>
    decreases sections.len(),
{
    if sections.len() == 0 {
        Seq::empty()
    } else {
        all_definitions(sections.drop_last()) + definitions_in(sections.last())
    }
}

/// The blocks of a file.
pub open spec fn all_blocks(sections: Seq<Section>) -> Seq<Block>
    decreases sections.len(),
{
    if sections.len() == 0 {
        Seq::empty()
    } else {
        all_blocks(sections.drop_last()) + blocks_in(sections.last())
    }
}

/// The pulses of a file.
pub open spec fn all_rfs(sections: Seq<Section>) -> Seq<Rf>
    decreases sections.len(),
{
    if sections.len() == 0 {
        Seq::empty()
    } else {
        all_rfs(sections.drop_last()) + rfs_in(sections.last())
    }
}

/// The arbitrary gradients of a file.
pub open spec fn all_gradients(sections: Seq<Section>) -> Seq<Gradient>
    decreases sections.len(),
{
    if sections.len() == 0 {
        Seq::empty()
    } else {
        all_gradients(sections.drop_last()) + gradients_in(sections.last())
    }
}

/// The trapezoids of a file.
pub open spec fn all_traps(sections: Seq<Section>) -> Seq<Trap>
    decreases sections.len(),
{
    if sections.len() == 0 {
        Seq::empty()
    } else {
        all_traps(sections.drop_last()) + traps_in(sections.last())
    }
}

/// The sampling windows of a file.
pub open spec fn all_adcs(sections: Seq<Section>) -> Seq<Adc>
    decreases sections.len(),
{
    if sections.len() == 0 {
        Seq::empty()
    } else {
        all_adcs(sections.drop_last()) + adcs_in(sections.last())
    }
}

/// The delays of a file.
pub open spec fn all_delays(sections: Seq<Section>) -> Seq<Delay>
    decreases sections.len(),
{
    if sections.len() == 0 {
        Seq::empty()
    } else {
        all_delays(sections.drop_last()) + delays_in(sections.last())
    }
}

/// The shapes of a file.
pub open spec fn all_shapes(sections: Seq<Section>) -> Seq<Shape>
    decreases sections.len(),
{
    if sections.len() == 0 {
        Seq::empty()
    } else {
        all_shapes(sections.drop_last()) + shapes_in(sections.last())
    }
}

/// The records of a file, by kind.
pub struct Extracted {
    pub versions: Vec<Version>,
    pub definitions: Vec<(String, String)>,
    pub blocks: Vec<Block>,
    pub rfs: Vec<Rf>,
    pub gradients: Vec<Gradient>,
    pub traps: Vec<Trap>,
    pub adcs: Vec<Adc>,
    pub delays: Vec<Delay>,
    pub shapes: Vec<Shape>,
}

impl Extracted {
    /// These are the records of `sections`.
    pub open spec fn holds(&self, sections: Seq<Section>) -> bool {
        &&& self.versions@ == all_versions(sections)
        &&& self.definitions@ == all_definitions(sections)
        &&& self.blocks@ == all_blocks(sections)
        &&& self.rfs@ == all_rfs(sections)
        &&& self.gradients@ == all_gradients(sections)
        &&& self.traps@ == all_traps(sections)
        &&& self.adcs@ == all_adcs(sections)
        &&& self.delays@ == all_delays(sections)
        &&& self.shapes@ == all_shapes(sections)
    }
}

/// Sorts the records of a file by kind. Signatures and extensions are left
/// behind: nothing here reads them.
pub fn extract(sections: Vec<Section>) -> (records: Extracted)
    ensures
        records.holds(sections@),
{
    let mut records: Extracted = Extracted {
        versions: Vec::new(),
        definitions: Vec::new(),
        blocks: Vec::new(),
        rfs: Vec::new(),
        gradients: Vec::new(),
        traps: Vec::new(),
        adcs: Vec::new(),
        delays: Vec::new(),
        shapes: Vec::new(),
    };
    for section in it: sections
        invariant
            it.seq() == sections@,
            records.holds(sections@.take(it.index() as int)),
    {
        proof {
            let now = sections@.take(it.index() + 1);
            assert(now.drop_last() =~= sections@.take(it.index() as int));
            assert(now.last() == section);
        }
        match section {
            Section::Version(version) => {
                records.versions.push(version);
                assert(records.versions@ =~= all_versions(sections@.take(it.index() + 1)));
            },
            Section::Signature(_) => {},
            Section::Definitions(mut list) => {
                records.definitions.append(&mut list);
            },
            Section::Blocks(mut list) => {
                records.blocks.append(&mut list);
            },
            Section::Rfs(mut list) => {
                records.rfs.append(&mut list);
            },
            Section::Gradients(mut list) => {
                records.gradients.append(&mut list);
            },
            Section::Traps(mut list) => {
                records.traps.append(&mut list);
            },
            Section::Adcs(mut list) => {
                records.adcs.append(&mut list);
            },
            Section::Delays(mut list) => {
                records.delays.append(&mut list);
            },
            Section::Extensions(_) => {},
            Section::Shapes(mut list) => {
                records.shapes.append(&mut list);
            },
        }
        proof {
            let now = sections@.take(it.index() + 1);
            assert(records.versions@ =~= all_versions(now));
            assert(records.definitions@ =~= all_definitions(now));
            assert(records.blocks@ =~= all_blocks(now));
            assert(records.rfs@ =~= all_rfs(now));
            assert(records.gradients@ =~= all_gradients(now));
            assert(records.traps@ =~= all_traps(now));
            assert(records.adcs@ =~= all_adcs(now));
            assert(records.delays@ =~= all_delays(now));
            assert(records.shapes@ =~= all_shapes(now));
        }
    }
    assert(sections@.take(sections@.len() as int) =~= sections@);
    records
}

} // verus!

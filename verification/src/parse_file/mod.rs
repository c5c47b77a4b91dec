//! The sections of a file, and the grammar by which they are read.
//!
//! A file is a text of sections. Each section has a title in square
//! brackets on a line of its own, and lines of records below it. The
//! records follow the newest dialect: what an older dialect lacks is zero.
//! In every field that names another record, zero means "none".
//!
//! The grammar is laid down as functions from a text and a place in it to
//! what stands there and where it ends; the functions that read a text are
//! proved to return just that.

use vstd::prelude::*;
use vstd::string::StringExecFns;
use crate::fixed::Fixed;
use crate::sequence::display::{decimal, decimal_text};

pub mod compression;
pub mod file;
pub mod helpers;
pub mod numeric;
pub mod records;
pub mod scan;
pub mod shapes;
pub mod texts;

pub use file::parse_file;

verus! {

/// One section of a file.
#[derive(Debug, PartialEq, Eq)]
pub enum Section {
    Version(Version),
    Signature(Signature),
    Definitions(Vec<(String, String)>),
    Blocks(Vec<Block>),
    Rfs(Vec<Rf>),
    Gradients(Vec<Gradient>),
    Traps(Vec<Trap>),
    Adcs(Vec<Adc>),
    Delays(Vec<Delay>),
    Extensions(Extensions),
    Shapes(Vec<Shape>),
}

/// The dialect that a file is written in.
#[derive(Debug, PartialEq, Eq)]
pub struct Version {
    pub major: u32,
    pub minor: u32,
    pub revision: u32,
    pub rev_suppl: Option<String>,
}

impl Version {
    /// The dialect makes the raster times mandatory: 1.4 does, and what
    /// comes after it.
    pub open spec fn has_mandatory_rasters(&self) -> bool {
        self.major > 1 || (self.major == 1 && self.minor >= 4)
    }

    /// Tells whether the dialect makes the raster times mandatory.
    pub fn mandatory_rasters(&self) -> (r: bool)
        ensures
            r == self.has_mandatory_rasters(),
    {
        self.major > 1 || (self.major == 1 && self.minor >= 4)
    }
}

/// The checksum at the end of a file.
#[derive(Debug, PartialEq, Eq)]
pub struct Signature {
    pub typ: String,
    pub hash: String,
}

/// How a block states its length.
#[derive(Debug, Clone, Copy, PartialEq, Eq, Structural)]
pub enum BlockDuration {
    /// A number of block rasters.
    Duration(u32),
    /// The identifier of a delay; the block lasts as long as its longest
    /// event.
    DelayId(u32),
}

#[derive(Debug, Clone, Copy, PartialEq, Eq, Structural)]
pub struct Block {
    pub id: u32,
    pub dur: BlockDuration,
    pub rf: u32,
    pub gx: u32,
    pub gy: u32,
    pub gz: u32,
    pub adc: u32,
    pub ext: u32,
}

#[derive(Debug, Clone, Copy, PartialEq, Eq, Structural)]
pub struct Rf {
    pub id: u32,
    /// In hertz.
    pub amp: Fixed,
    pub mag_id: u32,
    pub phase_id: u32,
    pub time_id: u32,
    /// In seconds.
    pub delay: Fixed,
    /// In hertz.
    pub freq: Fixed,
    /// In radians.
    pub phase: Fixed,
}

#[derive(Debug, Clone, Copy, PartialEq, Eq, Structural)]
pub struct Gradient {
    pub id: u32,
    /// In hertz per metre.
    pub amp: Fixed,
    pub shape_id: u32,
    pub time_id: u32,
    /// In seconds.
    pub delay: Fixed,
}

#[derive(Debug, Clone, Copy, PartialEq, Eq, Structural)]
pub struct Trap {
    pub id: u32,
    /// In hertz per metre.
    pub amp: Fixed,
    /// In seconds.
    pub rise: Fixed,
    /// In seconds.
    pub flat: Fixed,
    /// In seconds.
    pub fall: Fixed,
    /// In seconds.
    pub delay: Fixed,
}

#[derive(Debug, Clone, Copy, PartialEq, Eq, Structural)]
pub struct Adc {
    pub id: u32,
    pub num: u32,
    /// In seconds.
    pub dwell: Fixed,
    /// In seconds.
    pub delay: Fixed,
    /// In hertz.
    pub freq: Fixed,
    /// In radians.
    pub phase: Fixed,
}

#[derive(Debug, Clone, Copy, PartialEq, Eq, Structural)]
pub struct Delay {
    pub id: u32,
    /// In seconds.
    pub delay: Fixed,
}

#[derive(Debug, PartialEq, Eq)]
pub struct Extensions {
    pub refs: Vec<ExtensionRef>,
    pub specs: Vec<ExtensionSpec>,
}

#[derive(Debug, Clone, Copy, PartialEq, Eq, Structural)]
pub struct ExtensionRef {
    pub id: u32,
    pub spec_id: u32,
    pub obj_id: u32,
    pub next: u32,
}

#[derive(Debug, PartialEq, Eq)]
pub struct ExtensionSpec {
    pub id: u32,
    pub name: String,
    pub instances: Vec<ExtensionObject>,
}

#[derive(Debug, PartialEq, Eq)]
pub struct ExtensionObject {
    pub id: u32,
    pub data: String,
}

/// A shape as a file declares it, already decompressed.
#[derive(Debug, PartialEq, Eq)]
pub struct Shape {
    pub id: u32,
    pub samples: Vec<Fixed>,
}

/// The dialects that can be read.
#[derive(Debug, Clone, Copy, PartialEq, Eq, Structural)]
pub enum Dialect {
    V12,
    V13,
    V14,
}

/// What a [`Version`] says.
pub struct VersionModel {
    pub major: u32,
    pub minor: u32,
    pub revision: u32,
    pub rev_suppl: Option<Seq<char>>,
}

/// What an [`ExtensionSpec`] says.
pub struct ExtensionSpecModel {
    pub id: u32,
    pub name: Seq<char>,
    /// The identifier and the data of each instance.
    pub instances: Seq<(u32, Seq<char>)>,
}

/// What a [`Section`] says.
pub enum SectionModel {
    Version(VersionModel),
    Signature { typ: Seq<char>, hash: Seq<char> },
    /// The key and the value of each definition.
    Definitions(Seq<(Seq<char>, Seq<char>)>),
    Blocks(Seq<Block>),
    Rfs(Seq<Rf>),
    Gradients(Seq<Gradient>),
    Traps(Seq<Trap>),
    Adcs(Seq<Adc>),
    Delays(Seq<Delay>),
    Extensions { refs: Seq<ExtensionRef>, specs: Seq<ExtensionSpecModel> },
    /// The identifier and the samples of each shape.
    Shapes(Seq<(u32, Seq<Fixed>)>),
}

/// The texts of a list of pairs of strings.
pub open spec fn texts_of(pairs: Seq<(String, String)>) -> Seq<(Seq<char>, Seq<char>)> {
    Seq::new(pairs.len(), |i: int| (pairs[i].0@, pairs[i].1@))
}

/// What a list of instances of an extension says.
pub open spec fn instances_of(instances: Seq<ExtensionObject>) -> Seq<(u32, Seq<char>)> {
    Seq::new(instances.len(), |i: int| (instances[i].id, instances[i].data@))
}

/// What a list of extensions says.
pub open spec fn specs_of(specs: Seq<ExtensionSpec>) -> Seq<ExtensionSpecModel> {
    Seq::new(specs.len(), |i: int| specs[i].model())
}

/// What a list of shapes says.
pub open spec fn shapes_of(shapes: Seq<Shape>) -> Seq<(u32, Seq<Fixed>)> {
    Seq::new(shapes.len(), |i: int| (shapes[i].id, shapes[i].samples@))
}

/// What a list of sections says.
pub open spec fn models_of(sections: Seq<Section>) -> Seq<SectionModel> {
    Seq::new(sections.len(), |i: int| sections[i].model())
}

impl Version {
    pub open spec fn model(&self) -> VersionModel {
        VersionModel {
            major: self.major,
            minor: self.minor,
            revision: self.revision,
            rev_suppl: match self.rev_suppl {
                Some(text) => Some(text@),
                None => None,
            },
        }
    }

    /// The version as it is written: the three numbers with points between
    /// them, and what follows the revision.
    pub open spec fn spec_text(&self) -> Seq<char> {
        decimal(self.major as nat) + seq!['.'] + decimal(self.minor as nat) + seq!['.'] + decimal(
            self.revision as nat,
        ) + match self.rev_suppl {
            Some(suppl) => suppl@,
            None => Seq::empty(),
        }
    }

    /// The version as it is written.
    pub fn text(&self) -> (text: String)
        ensures
            text@ == self.spec_text(),
    {
        proof {
            reveal_strlit(".");
        }
        let mut text: String = decimal_text(self.major as usize);
        text.append(".");
        text.append(decimal_text(self.minor as usize).as_str());
        text.append(".");
        text.append(decimal_text(self.revision as usize).as_str());
        match &self.rev_suppl {
            Some(suppl) => {
                text.append(suppl.as_str());
            },
            None => {},
        }
        assert(text@ =~= self.spec_text());
        text
    }

    /// A version that says the same.
    pub fn copy(&self) -> (version: Version)
        ensures
            version.model() == self.model(),
    {
        Version {
            major: self.major,
            minor: self.minor,
            revision: self.revision,
            rev_suppl: match &self.rev_suppl {
                Some(suppl) => Some(suppl.clone()),
                None => None,
            },
        }
    }

    /// The dialect of this version, if it can be read.
    pub fn dialect(&self) -> (dialect: Option<Dialect>)
        ensures
            dialect == dialect_of(self.model()),
    {
        if self.major == 1 && self.minor == 2 {
            Some(Dialect::V12)
        } else if self.major == 1 && self.minor == 3 {
            Some(Dialect::V13)
        } else if self.major == 1 && self.minor == 4 {
            Some(Dialect::V14)
        } else {
            None
        }
    }
}

/// The dialect of a version, if it can be read: 1.2, 1.3 and 1.4 can.
pub open spec fn dialect_of(version: VersionModel) -> Option<Dialect> {
    if version.major == 1 && version.minor == 2 {
        Some(Dialect::V12)
    } else if version.major == 1 && version.minor == 3 {
        Some(Dialect::V13)
    } else if version.major == 1 && version.minor == 4 {
        Some(Dialect::V14)
    } else {
        None
    }
}

impl ExtensionSpec {
    pub open spec fn model(&self) -> ExtensionSpecModel {
        ExtensionSpecModel {
            id: self.id,
            name: self.name@,
            instances: instances_of(self.instances@),
        }
    }
}

impl Section {
    pub open spec fn model(&self) -> SectionModel {
        match *self {
            Section::Version(version) => SectionModel::Version(version.model()),
            Section::Signature(signature) => SectionModel::Signature {
                typ: signature.typ@,
                hash: signature.hash@,
            },
            Section::Definitions(pairs) => SectionModel::Definitions(texts_of(pairs@)),
            Section::Blocks(records) => SectionModel::Blocks(records@),
            Section::Rfs(records) => SectionModel::Rfs(records@),
            Section::Gradients(records) => SectionModel::Gradients(records@),
            Section::Traps(records) => SectionModel::Traps(records@),
            Section::Adcs(records) => SectionModel::Adcs(records@),
            Section::Delays(records) => SectionModel::Delays(records@),
            Section::Extensions(extensions) => SectionModel::Extensions {
                refs: extensions.refs@,
                specs: specs_of(extensions.specs@),
            },
            Section::Shapes(shapes) => SectionModel::Shapes(shapes_of(shapes@)),
        }
    }
}

} // verus!

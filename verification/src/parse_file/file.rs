//! A file as a whole: sections in any order, each any number of times.

use vstd::prelude::*;
use crate::error::{ParseError, ParseErrorModel, ShapeDecompressionError};
use crate::parse_file::scan::{newline, skip_newline, Input};
use crate::parse_file::shapes::{shapes, shapes_section};
use crate::parse_file::numeric::{
    adcs_section, blocks_section, delays_section, gradients_section, rfs_section, adcs,
    blocks, delays, gradients, rfs, traps, traps_section,
};
use crate::parse_file::texts::{
    definitions_section, extensions_section, definitions, extensions, signature,
    version, signature_at, version_at,
};
use crate::parse_file::{dialect_of, models_of, Dialect, Section, SectionModel, Version};

verus! {

/// The version section at `at`, as a section.
pub open spec fn version_section(text: Seq<char>, at: int) -> Option<(SectionModel, int)> {
    match version_at(text, at) {
        Some((version, next)) => Some((SectionModel::Version(version), next)),
        None => None,
    }
}

/// The first of two readings that found something.
pub open spec fn or_else(
    one: Option<(SectionModel, int)>,
    other: Option<(SectionModel, int)>,
) -> Option<(SectionModel, int)> {
    match one {
        Some(_) => one,
        None => other,
    }
}

/// The section at `at` that holds no shapes, in a file of the given dialect.
/// Every dialect has version, definitions, blocks, pulses, gradients,
/// trapezoids and sampling windows; the first two have delays, the last two
/// extensions, and the last a signature.
pub open spec fn plain_section(text: Seq<char>, at: int, dialect: Dialect) -> Option<
    (SectionModel, int),
> {
    or_else(
        version_section(text, at),
        or_else(
            if dialect == Dialect::V14 {
                signature_at(text, at)
            } else {
                None
            },
            or_else(
                definitions_section(text, at),
                or_else(
                    blocks_section(text, at, dialect),
                    or_else(
                        rfs_section(text, at, dialect),
                        or_else(
                            gradients_section(text, at, dialect),
                            or_else(
                                traps_section(text, at),
                                or_else(
                                    adcs_section(text, at),
                                    or_else(
                                        if dialect != Dialect::V14 {
                                            delays_section(text, at)
                                        } else {
                                            None
                                        },
                                        if dialect != Dialect::V12 {
                                            extensions_section(text, at)
                                        } else {
                                            None
                                        },
                                    ),
                                ),
                            ),
                        ),
                    ),
                ),
            ),
        ),
    )
}

/// The section at `at`, in a file of the given dialect; nothing where no
/// section stands there, and a failure where one does whose shapes cannot be
/// decompressed.
pub open spec fn section_at(text: Seq<char>, at: int, dialect: Dialect) -> Result<
    Option<(SectionModel, int)>,
    ShapeDecompressionError,
> {
    match plain_section(text, at, dialect) {
        Some(read) => Ok(Some(read)),
        None => shapes_section(text, at),
    }
}

/// The sections that follow each other from `at` on, and where the last of
/// them ends; or the failure of the first that fails.
pub open spec fn sections_from(text: Seq<char>, at: int, dialect: Dialect) -> Result<
    (Seq<SectionModel>, int),
    ShapeDecompressionError,
>
    decreases text.len() - at,
{
    match section_at(text, at, dialect) {
        Err(e) => Err(e),
        Ok(None) => Ok((Seq::empty(), at)),
        Ok(Some((section, next))) => if at < next <= text.len() {
            match sections_from(text, next, dialect) {
                Err(e) => Err(e),
                Ok((more, end)) => Ok((seq![section] + more, end)),
            }
        } else {
            Ok((Seq::empty(), at))
        },
    }
}

/// Where the text starts to hold something: behind the lines that hold
/// nothing but a gap or a comment.
pub open spec fn start_of(text: Seq<char>) -> int {
    match newline(text, 0) {
        Some(start) => start,
        None => 0,
    }
}

/// What [`file`] makes of a text: it must consist of sections of the given
/// dialect to its end.
pub open spec fn file_of(text: Seq<char>, dialect: Dialect) -> Result<
    Seq<SectionModel>,
    ParseErrorModel,
> {
    match sections_from(text, start_of(text), dialect) {
        Err(e) => Err(ParseErrorModel::ShapeDecompressionError(e)),
        Ok((sections, end)) => if end == text.len() {
            Ok(sections)
        } else {
            Err(ParseErrorModel::Syntax)
        },
    }
}

/// What [`parse_file`] makes of a text: it must start with a version
/// section, which names the dialect, and be a file of that dialect.
pub open spec fn parsed_file(text: Seq<char>) -> Result<Seq<SectionModel>, ParseErrorModel> {
    match version_at(text, start_of(text)) {
        None => Err(ParseErrorModel::Syntax),
        Some((version, _)) => match dialect_of(version) {
            None => Err(ParseErrorModel::UnsupportedVersion(version)),
            Some(dialect) => file_of(text, dialect),
        },
    }
}

/// Reads the section at `at` that holds no shapes.
fn scan_plain_section(input: &Input, at: usize, dialect: Dialect) -> (read:
    Option<(Section, usize)>)
    requires
        at <= input@.len(),
    ensures
        match read {
            Some((section, end)) => plain_section(input@, at as int, dialect) == Some(
                (section.model(), end as int),
            ) && at <= end <= input@.len(),
            None => plain_section(input@, at as int, dialect) is None,
        },
{
    match version(input, at) {
        Some((version, next)) => {
            return Some((Section::Version(version), next));
        },
        None => {},
    }
    match dialect {
        Dialect::V14 => match signature(input, at) {
            Some(read) => {
                return Some(read);
            },
            None => {},
        },
        _ => {},
    }
    match definitions(input, at) {
        Some(read) => {
            return Some(read);
        },
        None => {},
    }
    match blocks(input, at, dialect) {
        Some(read) => {
            return Some(read);
        },
        None => {},
    }
    match rfs(input, at, dialect) {
        Some(read) => {
            return Some(read);
        },
        None => {},
    }
    match gradients(input, at, dialect) {
        Some(read) => {
            return Some(read);
        },
        None => {},
    }
    match traps(input, at) {
        Some(read) => {
            return Some(read);
        },
        None => {},
    }
    match adcs(input, at) {
        Some(read) => {
            return Some(read);
        },
        None => {},
    }
    match dialect {
        Dialect::V14 => {},
        _ => match delays(input, at) {
            Some(read) => {
                return Some(read);
            },
            None => {},
        },
    }
    match dialect {
        Dialect::V12 => None,
        _ => extensions(input, at),
    }
}

/// Reads the section at `at`.
fn scan_section(input: &Input, at: usize, dialect: Dialect) -> (read: Result<
    Option<(Section, usize)>,
    ShapeDecompressionError,
>)
    requires
        at <= input@.len(),
    ensures
        match read {
            Ok(Some((section, end))) => section_at(input@, at as int, dialect) == Ok::<
                Option<(SectionModel, int)>,
                ShapeDecompressionError,
            >(Some((section.model(), end as int))) && at <= end <= input@.len(),
            Ok(None) => section_at(input@, at as int, dialect) == Ok::<
                Option<(SectionModel, int)>,
                ShapeDecompressionError,
            >(None),
            Err(e) => section_at(input@, at as int, dialect) == Err::<
                Option<(SectionModel, int)>,
                ShapeDecompressionError,
            >(e),
        },
{
    match scan_plain_section(input, at, dialect) {
        Some(read) => Ok(Some(read)),
        None => shapes(input, at),
    }
}

/// What was read, with `before` in front of it.
pub open spec fn with_before(
    before: Seq<SectionModel>,
    read: Result<(Seq<SectionModel>, int), ShapeDecompressionError>,
) -> Result<(Seq<SectionModel>, int), ShapeDecompressionError> {
    match read {
        Ok((more, end)) => Ok((before + more, end)),
        Err(e) => Err(e),
    }
}

/// Reading on behind a section gives that section and what follows.
proof fn lemma_sections_step(
    text: Seq<char>,
    at: int,
    dialect: Dialect,
    before: Seq<SectionModel>,
    section: SectionModel,
    next: int,
)
    requires
        section_at(text, at, dialect) == Ok::<Option<(SectionModel, int)>, ShapeDecompressionError>(
            Some((section, next)),
        ),
        at < next <= text.len(),
    ensures
        with_before(before, sections_from(text, at, dialect)) == with_before(
            before.push(section),
            sections_from(text, next, dialect),
        ),
{
    match sections_from(text, next, dialect) {
        Ok((more, end)) => {
            assert((before + seq![section]) + more =~= before + (seq![section] + more));
            assert(before.push(section) =~= before + seq![section]);
        },
        Err(_) => {},
    }
}

/// Reads the sections that follow each other from `at` on.
fn scan_sections(input: &Input, at: usize, dialect: Dialect) -> (read: Result<
    (Vec<Section>, usize),
    ShapeDecompressionError,
>)
    requires
        at <= input@.len(),
    ensures
        match read {
            Ok((sections, end)) => sections_from(input@, at as int, dialect) == Ok::<
                (Seq<SectionModel>, int),
                ShapeDecompressionError,
            >((models_of(sections@), end as int)) && at <= end <= input@.len(),
            Err(e) => sections_from(input@, at as int, dialect) == Err::<
                (Seq<SectionModel>, int),
                ShapeDecompressionError,
            >(e),
        },
{
    let mut sections: Vec<Section> = Vec::new();
    let mut place: usize = at;
    assert(Seq::<SectionModel>::empty() + sections_from(input@, at as int, dialect)->Ok_0.0
        =~= sections_from(input@, at as int, dialect)->Ok_0.0);
    assert(models_of(sections@) =~= Seq::<SectionModel>::empty());
    loop
        invariant
            at <= place <= input@.len(),
            sections_from(input@, at as int, dialect) == with_before(
                models_of(sections@),
                sections_from(input@, place as int, dialect),
            ),
        decreases input@.len() - place,
    {
        match scan_section(input, place, dialect) {
            Err(e) => {
                return Err(e);
            },
            Ok(None) => {
                assert(models_of(sections@) + Seq::<SectionModel>::empty() =~= models_of(
                    sections@,
                ));
                return Ok((sections, place));
            },
            Ok(Some((section, next))) => {
                if next <= place {
                    assert(models_of(sections@) + Seq::<SectionModel>::empty() =~= models_of(
                        sections@,
                    ));
                    return Ok((sections, place));
                }
                proof {
                    lemma_sections_step(
                        input@,
                        place as int,
                        dialect,
                        models_of(sections@),
                        section.model(),
                        next as int,
                    );
                    assert(models_of(sections@.push(section)) =~= models_of(sections@).push(
                        section.model(),
                    ));
                }
                sections.push(section);
                place = next;
            },
        }
    }
}

/// Reads a file of the given dialect into its sections.
///
/// Fails with [`ParseError::Syntax`] where the text does not consist of
/// sections of the dialect to its end, and with
/// [`ParseError::ShapeDecompressionError`] where a shape cannot be
/// decompressed.
pub fn file(source: &str, dialect: Dialect) -> (sections: Result<Vec<Section>, ParseError>)
    ensures
        match sections {
            Ok(sections) => file_of(source@, dialect) == Ok::<Seq<SectionModel>, ParseErrorModel>(
                models_of(sections@),
            ),
            Err(e) => file_of(source@, dialect) == Err::<Seq<SectionModel>, ParseErrorModel>(
                e.model(),
            ),
        },
{
    let input: Input = Input::new(source);
    let start: usize = skip_newline(input.chars(), 0);
    match scan_sections(&input, start, dialect) {
        Ok((sections, end)) => if end == input.chars().len() {
            Ok(sections)
        } else {
            Err(ParseError::Syntax)
        },
        Err(e) => Err(ParseError::ShapeDecompressionError(e)),
    }
}

/// Reads a file into its sections.
///
/// Fails with [`ParseError::Syntax`] where the text does not start with a
/// version section or does not consist of sections to its end, with
/// [`ParseError::UnsupportedVersion`] where the version is none of 1.2, 1.3
/// and 1.4, and with [`ParseError::ShapeDecompressionError`] where a shape
/// cannot be decompressed.
pub fn parse_file(source: &str) -> (sections: Result<Vec<Section>, ParseError>)
    ensures
        match sections {
            Ok(sections) => parsed_file(source@) == Ok::<Seq<SectionModel>, ParseErrorModel>(
                models_of(sections@),
            ),
            Err(e) => parsed_file(source@) == Err::<Seq<SectionModel>, ParseErrorModel>(e.model()),
        },
{
    let input: Input = Input::new(source);
    let start: usize = skip_newline(input.chars(), 0);
    let found: Version = match version(&input, start) {
        Some((found, _)) => found,
        None => {
            return Err(ParseError::Syntax);
        },
    };
    match found.dialect() {
        Some(dialect) => file(source, dialect),
        None => Err(ParseError::UnsupportedVersion(found)),
    }
}

} // verus!

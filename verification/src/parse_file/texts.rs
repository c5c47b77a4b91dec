//! The sections that hold text: version, signature, definitions and
//! extensions.

use vstd::prelude::*;
use crate::parse_file::records::{lines, rows_of, scan_lines, Kind};
use crate::parse_file::scan::{
    Input, alnum_end, gap, line_end, name, newline, ws, scan_line, ident, nl,
    tag_ws, tag_nl, integer, tag_gap, tag_newline, trim, trim_end,
    trim_start, trimmed, whole_at,
};
use crate::parse_file::numeric::{ext_ref_kinds, ext_refs, ext_refs_of};
use crate::parse_file::{
    instances_of, specs_of, texts_of, ExtensionObject, ExtensionSpec, ExtensionSpecModel,
    Extensions, Section, SectionModel, Signature, Version, VersionModel,
};

verus! {

/// The whole number behind `key` and a gap, and where it ends.
pub open spec fn keyed_whole(text: Seq<char>, at: int, key: Seq<char>) -> Option<(u32, int)> {
    match tag_gap(text, at, key) {
        Some(start) => whole_at(text, start),
        None => None,
    }
}

/// The whole number on a line that holds `key` and the number, and where the
/// line ends.
pub open spec fn keyed_line(text: Seq<char>, at: int, key: Seq<char>) -> Option<(u32, int)> {
    match keyed_whole(text, at, key) {
        Some((value, end)) => match newline(text, end) {
            Some(next) => Some((value, next)),
            None => None,
        },
        None => None,
    }
}

/// The version section at `at`: its title, and the lines of `major`, `minor`
/// and `revision`. Letters and digits may follow the revision directly.
pub open spec fn version_at(text: Seq<char>, at: int) -> Option<(VersionModel, int)> {
    match tag_newline(text, at, "[VERSION]"@) {
        None => None,
        Some(start) => match keyed_line(text, start, "major"@) {
            None => None,
            Some((major, second)) => match keyed_line(text, second, "minor"@) {
                None => None,
                Some((minor, third)) => match keyed_whole(text, third, "revision"@) {
                    None => None,
                    Some((revision, end)) => match newline(text, alnum_end(text, end)) {
                        None => None,
                        Some(next) => Some(
                            (
                                VersionModel {
                                    major,
                                    minor,
                                    revision,
                                    rev_suppl: if alnum_end(text, end) > end {
                                        Some(text.subrange(end, alnum_end(text, end)))
                                    } else {
                                        None
                                    },
                                },
                                next,
                            ),
                        ),
                    },
                },
            },
        },
    }
}

/// The signature at `at`: its title, a line with `Type` and a name, and a
/// line with `Hash` and the rest of the line, which must not be empty.
pub open spec fn signature_at(text: Seq<char>, at: int) -> Option<(SectionModel, int)> {
    match tag_newline(text, at, "[SIGNATURE]"@) {
        None => None,
        Some(start) => match tag_gap(text, start, "Type"@) {
            None => None,
            Some(typ) => match name(text, typ) {
                None => None,
                Some(typ_end) => match newline(text, typ_end) {
                    None => None,
                    Some(second) => match tag_gap(text, second, "Hash"@) {
                        None => None,
                        Some(hash) => if line_end(text, hash) > hash {
                            match newline(text, line_end(text, hash)) {
                                Some(next) => Some(
                                    (
                                        SectionModel::Signature {
                                            typ: text.subrange(typ, typ_end),
                                            hash: trimmed(text, hash, line_end(text, hash)),
                                        },
                                        next,
                                    ),
                                ),
                                None => None,
                            }
                        } else {
                            None
                        },
                    },
                },
            },
        },
    }
}

/// The definition at `at`: a name, a gap, and the rest of the line without
/// the blanks around it.
pub open spec fn definition_at(text: Seq<char>, at: int) -> Option<
    ((Seq<char>, Seq<char>), int),
> {
    match name(text, at) {
        None => None,
        Some(key_end) => match gap(text, key_end) {
            None => None,
            Some(value) => match newline(text, line_end(text, value)) {
                None => None,
                Some(next) => Some(
                    (
                        (text.subrange(at, key_end), trimmed(text, value, line_end(text, value))),
                        next,
                    ),
                ),
            },
        },
    }
}

/// The definitions that follow each other from `at` on, and where the last of
/// them ends.
pub open spec fn definitions_from(text: Seq<char>, at: int) -> (
    Seq<(Seq<char>, Seq<char>)>,
    int,
)
    decreases text.len() - at,
{
    match definition_at(text, at) {
        Some((pair, next)) => if at < next <= text.len() {
            (seq![pair] + definitions_from(text, next).0, definitions_from(text, next).1)
        } else {
            (Seq::empty(), at)
        },
        None => (Seq::empty(), at),
    }
}

/// The section of the definitions at `at`.
pub open spec fn definitions_section(text: Seq<char>, at: int) -> Option<(SectionModel, int)> {
    match tag_newline(text, at, "[DEFINITIONS]"@) {
        Some(start) => Some(
            (
                SectionModel::Definitions(definitions_from(text, start).0),
                definitions_from(text, start).1,
            ),
        ),
        None => None,
    }
}

/// The instance of an extension at `at`: an identifier, and the rest of the
/// line, which must not be empty, without the blanks around it.
pub open spec fn instance_at(text: Seq<char>, at: int) -> Option<((u32, Seq<char>), int)> {
    match whole_at(text, crate::parse_file::scan::gap_end(text, at)) {
        None => None,
        Some((id, end)) => if line_end(text, end) > end {
            match newline(text, line_end(text, end)) {
                Some(next) => Some(((id, trimmed(text, end, line_end(text, end))), next)),
                None => None,
            }
        } else {
            None
        },
    }
}

/// The instances that follow each other from `at` on, and where the last of
/// them ends.
pub open spec fn instances_from(text: Seq<char>, at: int) -> (Seq<(u32, Seq<char>)>, int)
    decreases text.len() - at,
{
    match instance_at(text, at) {
        Some((instance, next)) => if at < next <= text.len() {
            (seq![instance] + instances_from(text, next).0, instances_from(text, next).1)
        } else {
            (Seq::empty(), at)
        },
        None => (Seq::empty(), at),
    }
}

/// The extension at `at`: a line with `extension`, a name and an identifier,
/// and one instance or more.
pub open spec fn extension_at(text: Seq<char>, at: int) -> Option<(ExtensionSpecModel, int)> {
    match tag_gap(text, at, "extension"@) {
        None => None,
        Some(start) => match name(text, start) {
            None => None,
            Some(name_end) => match gap(text, name_end) {
                None => None,
                Some(number) => match whole_at(text, number) {
                    None => None,
                    Some((id, end)) => match newline(text, end) {
                        None => None,
                        Some(next) => if instances_from(text, next).0.len() >= 1 {
                            Some(
                                (
                                    ExtensionSpecModel {
                                        id,
                                        name: text.subrange(start, name_end),
                                        instances: instances_from(text, next).0,
                                    },
                                    instances_from(text, next).1,
                                ),
                            )
                        } else {
                            None
                        },
                    },
                },
            },
        },
    }
}

/// The extensions that follow each other from `at` on, and where the last of
/// them ends.
pub open spec fn extensions_from(text: Seq<char>, at: int) -> (Seq<ExtensionSpecModel>, int)
    decreases text.len() - at,
{
    match extension_at(text, at) {
        Some((extension, next)) => if at < next <= text.len() {
            (seq![extension] + extensions_from(text, next).0, extensions_from(text, next).1)
        } else {
            (Seq::empty(), at)
        },
        None => (Seq::empty(), at),
    }
}

/// The section of the extensions at `at`: its title, one reference or more,
/// and one extension or more.
pub open spec fn extensions_section(text: Seq<char>, at: int) -> Option<(SectionModel, int)> {
    match tag_newline(text, at, "[EXTENSIONS]"@) {
        None => None,
        Some(start) => {
            let refs = lines(text, start, ext_ref_kinds(), Seq::empty());
            let specs = extensions_from(text, refs.1);
            if refs.0.len() >= 1 && specs.0.len() >= 1 {
                Some(
                    (SectionModel::Extensions { refs: ext_refs_of(refs.0), specs: specs.0 }, specs.1),
                )
            } else {
                None
            }
        },
    }
}

fn scan_keyed_whole(text: &Vec<char>, at: usize, key: &str) -> (read: Option<(u32, usize)>)
    requires
        at <= text@.len(),
    ensures
        match read {
            Some((value, end)) => keyed_whole(text@, at as int, key@) == Some(
                (value, end as int),
            ) && at < end <= text@.len(),
            None => keyed_whole(text@, at as int, key@) is None,
        },
{
    match tag_ws(text, at, key) {
        Some(start) => integer(text, start),
        None => None,
    }
}

fn scan_keyed_line(text: &Vec<char>, at: usize, key: &str) -> (read: Option<(u32, usize)>)
    requires
        at <= text@.len(),
    ensures
        match read {
            Some((value, next)) => keyed_line(text@, at as int, key@) == Some(
                (value, next as int),
            ) && at < next <= text@.len(),
            None => keyed_line(text@, at as int, key@) is None,
        },
{
    match scan_keyed_whole(text, at, key) {
        Some((value, end)) => match nl(text, end) {
            Some(next) => Some((value, next)),
            None => None,
        },
        None => None,
    }
}

/// Reads the version section at `at`.
pub fn version(input: &Input, at: usize) -> (read: Option<
    (Version, usize),
>)
    ensures
        match read {
            Some((version, next)) => version_at(input@, at as int) == Some(
                (version.model(), next as int),
            ) && at < next <= input@.len(),
            None => version_at(input@, at as int) is None,
        },
{
    let text: &Vec<char> = input.chars();
    if at > text.len() {
        return None;
    }
    let start: usize = match tag_nl(text, at, "[VERSION]") {
        Some(start) => start,
        None => {
            return None;
        },
    };
    let (major, second) = match scan_keyed_line(text, start, "major") {
        Some(read) => read,
        None => {
            return None;
        },
    };
    let (minor, third) = match scan_keyed_line(text, second, "minor") {
        Some(read) => read,
        None => {
            return None;
        },
    };
    let (revision, end) = match scan_keyed_whole(text, third, "revision") {
        Some(read) => read,
        None => {
            return None;
        },
    };
    let suppl_end: usize = match ident(text, end) {
        Some(suppl_end) => suppl_end,
        None => end,
    };
    let next: usize = match nl(text, suppl_end) {
        Some(next) => next,
        None => {
            return None;
        },
    };
    let rev_suppl: Option<String> = if suppl_end > end {
        Some(input.piece(end, suppl_end))
    } else {
        None
    };
    Some((Version { major, minor, revision, rev_suppl }, next))
}

/// Reads the signature at `at`.
pub fn signature(input: &Input, at: usize) -> (read: Option<
    (Section, usize),
>)
    ensures
        match read {
            Some((section, next)) => signature_at(input@, at as int) == Some(
                (section.model(), next as int),
            ) && at < next <= input@.len(),
            None => signature_at(input@, at as int) is None,
        },
{
    let text: &Vec<char> = input.chars();
    if at > text.len() {
        return None;
    }
    let start: usize = match tag_nl(text, at, "[SIGNATURE]") {
        Some(start) => start,
        None => {
            return None;
        },
    };
    let typ: usize = match tag_ws(text, start, "Type") {
        Some(typ) => typ,
        None => {
            return None;
        },
    };
    let typ_end: usize = match ident(text, typ) {
        Some(typ_end) => typ_end,
        None => {
            return None;
        },
    };
    let second: usize = match nl(text, typ_end) {
        Some(second) => second,
        None => {
            return None;
        },
    };
    let hash: usize = match tag_ws(text, second, "Hash") {
        Some(hash) => hash,
        None => {
            return None;
        },
    };
    let hash_end: usize = scan_line(text, hash);
    if hash_end == hash {
        return None;
    }
    let next: usize = match nl(text, hash_end) {
        Some(next) => next,
        None => {
            return None;
        },
    };
    let signature: Signature = Signature {
        typ: input.piece(typ, typ_end),
        hash: input.trimmed_piece(hash, hash_end),
    };
    Some((Section::Signature(signature), next))
}

/// Reads the definition at `at`.
fn scan_definition(input: &Input, at: usize) -> (read: Option<
    ((String, String), usize),
>)
    requires
        at <= input@.len(),
    ensures
        match read {
            Some((pair, next)) => definition_at(input@, at as int) == Some(
                ((pair.0@, pair.1@), next as int),
            ) && at < next <= input@.len(),
            None => definition_at(input@, at as int) is None,
        },
{
    let text: &Vec<char> = input.chars();
    let key_end: usize = match ident(text, at) {
        Some(key_end) => key_end,
        None => {
            return None;
        },
    };
    let value: usize = match ws(text, key_end) {
        Some(value) => value,
        None => {
            return None;
        },
    };
    let value_end: usize = scan_line(text, value);
    let next: usize = match nl(text, value_end) {
        Some(next) => next,
        None => {
            return None;
        },
    };
    Some(((input.piece(at, key_end), input.trimmed_piece(value, value_end)), next))
}

/// Reads the definitions that follow each other from `at` on, a place in
/// the text.
fn read_definitions(input: &Input, at: usize) -> (read: (
    Vec<(String, String)>,
    usize,
))
    requires
        at <= input@.len(),
    ensures
        texts_of(read.0@) == definitions_from(input@, at as int).0,
        read.1 == definitions_from(input@, at as int).1,
        at <= read.1 <= input@.len(),
{
    let text: &Vec<char> = input.chars();
    let mut pairs: Vec<(String, String)> = Vec::new();
    let mut place: usize = at;
    loop
        invariant
            text@ == input@,
            at <= place <= text@.len(),
            definitions_from(text@, at as int).0 == texts_of(pairs@) + definitions_from(
                text@,
                place as int,
            ).0,
            definitions_from(text@, at as int).1 == definitions_from(text@, place as int).1,
        decreases text@.len() - place,
    {
        match scan_definition(input, place) {
            Some((pair, next)) => {
                proof {
                    let rest = definitions_from(text@, next as int).0;
                    let read = (pair.0@, pair.1@);
                    assert(texts_of(pairs@.push(pair)) =~= texts_of(pairs@) + seq![read]);
                    assert((texts_of(pairs@) + seq![read]) + rest =~= texts_of(pairs@) + (
                    seq![read] + rest));
                }
                pairs.push(pair);
                place = next;
            },
            None => {
                assert(texts_of(pairs@) + Seq::<(Seq<char>, Seq<char>)>::empty() =~= texts_of(
                    pairs@,
                ));
                return (pairs, place);
            },
        }
    }
}

/// Reads the definitions that follow each other from `at` on: their keys and
/// values, and where the last of them ends.
pub fn raw_definitions(input: &Input, at: usize) -> (read: (Vec<(String, String)>, usize))
    ensures
        texts_of(read.0@) == definitions_from(input@, at as int).0,
        read.1 == definitions_from(input@, at as int).1,
{
    if at > input.chars().len() {
        let none: Vec<(String, String)> = Vec::new();
        assert(texts_of(none@) =~= Seq::<(Seq<char>, Seq<char>)>::empty());
        (none, at)
    } else {
        read_definitions(input, at)
    }
}

/// Reads the section of the definitions at `at`.
pub fn definitions(input: &Input, at: usize) -> (read: Option<
    (Section, usize),
>)
    ensures
        match read {
            Some((section, end)) => definitions_section(input@, at as int) == Some(
                (section.model(), end as int),
            ) && at <= end <= input@.len(),
            None => definitions_section(input@, at as int) is None,
        },
{
    let text: &Vec<char> = input.chars();
    if at > text.len() {
        return None;
    }
    match tag_nl(text, at, "[DEFINITIONS]") {
        Some(start) => {
            let (pairs, end) = read_definitions(input, start);
            Some((Section::Definitions(pairs), end))
        },
        None => None,
    }
}

/// Reads the instance of an extension at `at`.
fn scan_instance(input: &Input, at: usize) -> (read: Option<
    (ExtensionObject, usize),
>)
    requires
        at <= input@.len(),
    ensures
        match read {
            Some((instance, next)) => instance_at(input@, at as int) == Some(
                ((instance.id, instance.data@), next as int),
            ) && at < next <= input@.len(),
            None => instance_at(input@, at as int) is None,
        },
{
    let text: &Vec<char> = input.chars();
    let (id, end) = match integer(text, crate::parse_file::scan::skip_gap(text, at)) {
        Some(read) => read,
        None => {
            return None;
        },
    };
    let data_end: usize = scan_line(text, end);
    if data_end == end {
        return None;
    }
    let next: usize = match nl(text, data_end) {
        Some(next) => next,
        None => {
            return None;
        },
    };
    Some((ExtensionObject { id, data: input.trimmed_piece(end, data_end) }, next))
}

/// Reads the instances that follow each other from `at` on.
fn scan_instances(input: &Input, at: usize) -> (read: (
    Vec<ExtensionObject>,
    usize,
))
    requires
        at <= input@.len(),
    ensures
        instances_of(read.0@) == instances_from(input@, at as int).0,
        read.1 == instances_from(input@, at as int).1,
        at <= read.1 <= input@.len(),
{
    let text: &Vec<char> = input.chars();
    let mut instances: Vec<ExtensionObject> = Vec::new();
    let mut place: usize = at;
    loop
        invariant
            text@ == input@,
            at <= place <= text@.len(),
            instances_from(text@, at as int).0 == instances_of(instances@) + instances_from(
                text@,
                place as int,
            ).0,
            instances_from(text@, at as int).1 == instances_from(text@, place as int).1,
        decreases text@.len() - place,
    {
        match scan_instance(input, place) {
            Some((instance, next)) => {
                proof {
                    let rest = instances_from(text@, next as int).0;
                    let read = (instance.id, instance.data@);
                    assert(instances_of(instances@.push(instance)) =~= instances_of(instances@)
                        + seq![read]);
                    assert((instances_of(instances@) + seq![read]) + rest =~= instances_of(
                        instances@,
                    ) + (seq![read] + rest));
                }
                instances.push(instance);
                place = next;
            },
            None => {
                assert(instances_of(instances@) + Seq::<(u32, Seq<char>)>::empty()
                    =~= instances_of(instances@));
                return (instances, place);
            },
        }
    }
}

/// Reads the extension at `at`.
fn scan_extension(input: &Input, at: usize) -> (read: Option<
    (ExtensionSpec, usize),
>)
    requires
        at <= input@.len(),
    ensures
        match read {
            Some((extension, next)) => extension_at(input@, at as int) == Some(
                (extension.model(), next as int),
            ) && at < next <= input@.len(),
            None => extension_at(input@, at as int) is None,
        },
{
    let text: &Vec<char> = input.chars();
    let start: usize = match tag_ws(text, at, "extension") {
        Some(start) => start,
        None => {
            return None;
        },
    };
    let name_end: usize = match ident(text, start) {
        Some(name_end) => name_end,
        None => {
            return None;
        },
    };
    let number: usize = match ws(text, name_end) {
        Some(number) => number,
        None => {
            return None;
        },
    };
    let (id, end) = match integer(text, number) {
        Some(read) => read,
        None => {
            return None;
        },
    };
    let next: usize = match nl(text, end) {
        Some(next) => next,
        None => {
            return None;
        },
    };
    let (instances, last) = scan_instances(input, next);
    assert(instances@.len() == instances_of(instances@).len());
    if instances.len() < 1 {
        return None;
    }
    Some((ExtensionSpec { id, name: input.piece(start, name_end), instances }, last))
}

/// Reads the extensions that follow each other from `at` on.
fn scan_extensions_from(input: &Input, at: usize) -> (read: (
    Vec<ExtensionSpec>,
    usize,
))
    requires
        at <= input@.len(),
    ensures
        specs_of(read.0@) == extensions_from(input@, at as int).0,
        read.1 == extensions_from(input@, at as int).1,
        at <= read.1 <= input@.len(),
{
    let text: &Vec<char> = input.chars();
    let mut specs: Vec<ExtensionSpec> = Vec::new();
    let mut place: usize = at;
    loop
        invariant
            text@ == input@,
            at <= place <= text@.len(),
            extensions_from(text@, at as int).0 == specs_of(specs@) + extensions_from(
                text@,
                place as int,
            ).0,
            extensions_from(text@, at as int).1 == extensions_from(text@, place as int).1,
        decreases text@.len() - place,
    {
        match scan_extension(input, place) {
            Some((extension, next)) => {
                proof {
                    let rest = extensions_from(text@, next as int).0;
                    let read = extension.model();
                    assert(specs_of(specs@.push(extension)) =~= specs_of(specs@) + seq![read]);
                    assert((specs_of(specs@) + seq![read]) + rest =~= specs_of(specs@) + (
                    seq![read] + rest));
                }
                specs.push(extension);
                place = next;
            },
            None => {
                assert(specs_of(specs@) + Seq::<ExtensionSpecModel>::empty() =~= specs_of(
                    specs@,
                ));
                return (specs, place);
            },
        }
    }
}

/// Reads the section of the extensions at `at`.
pub fn extensions(input: &Input, at: usize) -> (read: Option<
    (Section, usize),
>)
    ensures
        match read {
            Some((section, end)) => extensions_section(input@, at as int) == Some(
                (section.model(), end as int),
            ) && at <= end <= input@.len(),
            None => extensions_section(input@, at as int) is None,
        },
{
    let text: &Vec<char> = input.chars();
    if at > text.len() {
        return None;
    }
    let start: usize = match tag_nl(text, at, "[EXTENSIONS]") {
        Some(start) => start,
        None => {
            return None;
        },
    };
    let kinds: Vec<Kind> = vec![Kind::Whole, Kind::Whole, Kind::Whole, Kind::Whole];
    assert(kinds@ =~= ext_ref_kinds());
    let extra: Vec<Kind> = Vec::new();
    let (rows, first) = scan_lines(text, start, &kinds, &extra);
    let (specs, end) = scan_extensions_from(input, first);
    assert(rows@.len() == rows_of(rows@).len());
    assert(specs@.len() == specs_of(specs@).len());
    if rows.len() < 1 || specs.len() < 1 {
        return None;
    }
    Some((Section::Extensions(Extensions { refs: ext_refs(&rows), specs }), end))
}

} // verus!

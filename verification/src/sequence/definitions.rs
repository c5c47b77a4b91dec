//! The definitions of a file: the raster times, the name and the field of
//! view are read, and the rest is handed on as it is.

use vstd::prelude::*;
use crate::error::{ConversionError, MissingDefinition, ParseFloatError, ParseFovError};
use crate::fixed::Fixed;
use crate::number::{chars_of, parse_chars, parse_number, parsed_number};
use crate::parse_file::scan::part_of;
use crate::parse_file::Version;
use crate::sequence::TimeRaster;

verus! {

/// The character separates words: it has the Unicode property White_Space.
pub open spec fn is_blank(c: char) -> bool {
    let code = c as u32;
    ||| 0x09 <= code <= 0x0d
    ||| code == 0x20
    ||| code == 0x85
    ||| code == 0xa0
    ||| code == 0x1680
    ||| 0x2000 <= code <= 0x200a
    ||| code == 0x2028
    ||| code == 0x2029
    ||| code == 0x202f
    ||| code == 0x205f
    ||| code == 0x3000
}

/// The words of a text: its longest stretches without a blank, in their
/// order.
pub open spec fn words(text: Seq<char>) -> Seq<Seq<char>>
    decreases text.len(),
{
    if text.len() == 0 {
        Seq::empty()
    } else {
        let before = text.drop_last();
        if is_blank(text.last()) {
            words(before)
        } else if before.len() > 0 && !is_blank(before.last()) {
            words(before).drop_last().push(words(before).last().push(text.last()))
        } else {
            words(before).push(seq![text.last()])
        }
    }
}

/// What [`parse_fov`] makes of `text`.
pub open spec fn parsed_fov(text: Seq<char>) -> Result<(Fixed, Fixed, Fixed), ParseFovError> {
    let parts = words(text);
    if parts.len() != 3 {
        Err(ParseFovError::WrongValueCount(parts.len() as usize))
    } else {
        match parsed_number(parts[0]) {
            Err(e) => Err(ParseFovError::ParseFloat(e)),
            Ok(x) => match parsed_number(parts[1]) {
                Err(e) => Err(ParseFovError::ParseFloat(e)),
                Ok(y) => match parsed_number(parts[2]) {
                    Err(e) => Err(ParseFovError::ParseFloat(e)),
                    Ok(z) => Ok((x, y, z)),
                },
            },
        }
    }
}

pub(crate) fn blank(c: char) -> (r: bool)
    ensures
        r == is_blank(c),
{
    let code: u32 = c as u32;
    (0x09 <= code && code <= 0x0d) || code == 0x20 || code == 0x85 || code == 0xa0 || code
        == 0x1680 || (0x2000 <= code && code <= 0x200a) || code == 0x2028 || code == 0x2029
        || code == 0x202f || code == 0x205f || code == 0x3000
}

/// Where the words of a text start and end.
pub fn split_words(text: &Vec<char>) -> (ranges: Vec<(usize, usize)>)
    ensures
        ranges@.len() == words(text@).len(),
        forall|k: int|
            0 <= k < ranges@.len() ==> {
                &&& (#[trigger] ranges@[k]).0 <= ranges@[k].1 <= text@.len()
                &&& words(text@)[k] == text@.subrange(ranges@[k].0 as int, ranges@[k].1 as int)
            },
{
    let mut ranges: Vec<(usize, usize)> = Vec::new();
    let mut in_word: bool = false;
    let mut word_start: usize = 0;
    let mut i: usize = 0;
    assert(text@.take(0) =~= Seq::<char>::empty());
    while i < text.len()
        invariant
            i <= text@.len(),
            in_word == (i > 0 && !is_blank(text@[i - 1])),
            in_word ==> word_start < i,
            words(text@.take(i as int)).len() == ranges@.len() + if in_word {
                1int
            } else {
                0int
            },
            forall|k: int|
                0 <= k < ranges@.len() ==> {
                    &&& (#[trigger] ranges@[k]).0 <= ranges@[k].1 <= i
                    &&& words(text@.take(i as int))[k] == text@.subrange(
                        ranges@[k].0 as int,
                        ranges@[k].1 as int,
                    )
                },
            in_word ==> words(text@.take(i as int)).last() == text@.subrange(
                word_start as int,
                i as int,
            ),
        decreases text.len() - i,
    {
        let c: char = text[i];
        let ghost before = text@.take(i as int);
        let ghost now = text@.take(i + 1);
        proof {
            assert(now.drop_last() =~= before);
            assert(now.last() == c);
            if i > 0 {
                assert(before.last() == text@[i - 1]);
            }
        }
        if blank(c) {
            if in_word {
                ranges.push((word_start, i));
                in_word = false;
            }
        } else {
            if in_word {
                assert(text@.subrange(word_start as int, i + 1) =~= text@.subrange(
                    word_start as int,
                    i as int,
                ).push(c));
            } else {
                word_start = i;
                in_word = true;
                assert(text@.subrange(i as int, i + 1) =~= seq![c]);
            }
        }
        i = i + 1;
    }
    assert(text@.take(text@.len() as int) =~= text@);
    if in_word {
        ranges.push((word_start, i));
    }
    ranges
}

/// Reads a field of view: three numbers with blanks between them.
///
/// Fails with [`ParseFovError::WrongValueCount`] where the text holds more or
/// fewer than three words, and else with the error of the first word that is
/// no number.
pub fn parse_fov(text: &str) -> (fov: Result<(Fixed, Fixed, Fixed), ParseFovError>)
    ensures
        fov == parsed_fov(text@),
{
    let chars: Vec<char> = chars_of(text);
    let ranges: Vec<(usize, usize)> = split_words(&chars);
    if ranges.len() != 3 {
        return Err(ParseFovError::WrongValueCount(ranges.len()));
    }
    let first: Vec<char> = part_of(&chars, ranges[0].0, ranges[0].1);
    let x: Fixed = match parse_chars(&first) {
        Ok(x) => x,
        Err(e) => {
            return Err(ParseFovError::ParseFloat(e));
        },
    };
    let second: Vec<char> = part_of(&chars, ranges[1].0, ranges[1].1);
    let y: Fixed = match parse_chars(&second) {
        Ok(y) => y,
        Err(e) => {
            return Err(ParseFovError::ParseFloat(e));
        },
    };
    let third: Vec<char> = part_of(&chars, ranges[2].0, ranges[2].1);
    let z: Fixed = match parse_chars(&third) {
        Ok(z) => z,
        Err(e) => {
            return Err(ParseFovError::ParseFloat(e));
        },
    };
    Ok((x, y, z))
}

/// The keys of a list of definitions, in its order.
pub open spec fn keys_of(defs: Seq<(String, String)>) -> Seq<Seq<char>> {
    Seq::new(defs.len(), |i: int| defs[i].0@)
}

/// Where the first definition of `key` at or behind `from` stands.
pub open spec fn find_key(defs: Seq<(String, String)>, key: Seq<char>, from: int) -> Option<int>
    decreases defs.len() - from,
{
    if from < 0 || from >= defs.len() {
        None
    } else if defs[from].0@ == key {
        Some(from)
    } else {
        find_key(defs, key, from + 1)
    }
}

/// The value that the definitions give to `key`.
pub open spec fn value_of(defs: Seq<(String, String)>, key: Seq<char>) -> Option<Seq<char>> {
    match find_key(defs, key, 0) {
        Some(i) => Some(defs[i].1@),
        None => None,
    }
}

/// The definitions without the first of `key`.
pub open spec fn without(defs: Seq<(String, String)>, key: Seq<char>) -> Seq<(String, String)> {
    match find_key(defs, key, 0) {
        Some(i) => defs.remove(i),
        None => defs,
    }
}

/// The raster time that the definitions give under `key`. Where they give
/// none, a file that must give it is at fault, and another has `fallback`.
pub open spec fn raster_of(
    defs: Seq<(String, String)>,
    key: Seq<char>,
    mandatory: bool,
    missing: MissingDefinition,
    fallback: Fixed,
) -> Result<Fixed, ConversionError> {
    match value_of(defs, key) {
        None => if mandatory {
            Err(ConversionError::MissingDefinition(missing))
        } else {
            Ok(fallback)
        },
        Some(text) => match parsed_number(text) {
            Ok(raster) => Ok(raster),
            Err(e) => Err(ConversionError::ParseFloat(e)),
        },
    }
}

pub open spec fn grad_raster_of(defs: Seq<(String, String)>, mandatory: bool) -> Result<
    Fixed,
    ConversionError,
> {
    raster_of(
        defs,
        "GradientRasterTime"@,
        mandatory,
        MissingDefinition::GradientRasterTime,
        TimeRaster::fallback().grad,
    )
}

pub open spec fn rf_raster_of(defs: Seq<(String, String)>, mandatory: bool) -> Result<
    Fixed,
    ConversionError,
> {
    raster_of(
        defs,
        "RadiofrequencyRasterTime"@,
        mandatory,
        MissingDefinition::RadiofrequencyRasterTime,
        TimeRaster::fallback().rf,
    )
}

pub open spec fn adc_raster_of(defs: Seq<(String, String)>, mandatory: bool) -> Result<
    Fixed,
    ConversionError,
> {
    raster_of(
        defs,
        "AdcRasterTime"@,
        mandatory,
        MissingDefinition::AdcRasterTime,
        TimeRaster::fallback().adc,
    )
}

pub open spec fn block_raster_of(defs: Seq<(String, String)>, mandatory: bool) -> Result<
    Fixed,
    ConversionError,
> {
    raster_of(
        defs,
        "BlockDurationRaster"@,
        mandatory,
        MissingDefinition::BlockDurationRaster,
        TimeRaster::fallback().block,
    )
}

/// The field of view that the definitions give, if they give one.
pub open spec fn fov_of(defs: Seq<(String, String)>) -> Result<
    Option<(Fixed, Fixed, Fixed)>,
    ConversionError,
> {
    match value_of(defs, "FOV"@) {
        None => Ok(None),
        Some(text) => match parsed_fov(text) {
            Ok(fov) => Ok(Some(fov)),
            Err(e) => Err(ConversionError::ParseFovError(e)),
        },
    }
}

/// The error of a result.
pub open spec fn failure_of<T>(r: Result<T, ConversionError>) -> Option<ConversionError> {
    match r {
        Ok(_) => None,
        Err(e) => Some(e),
    }
}

/// Why the definitions cannot be read, if they cannot: a key stands twice,
/// or else the first of the raster times for gradients, pulses, sampling
/// and blocks, and then the field of view, that is missing or ill-formed.
pub open spec fn definitions_failure(defs: Seq<(String, String)>, mandatory: bool) -> Option<
    ConversionError,
> {
    if !keys_of(defs).no_duplicates() {
        Some(ConversionError::NonUniqueDefinition)
    } else if grad_raster_of(defs, mandatory) is Err {
        failure_of(grad_raster_of(defs, mandatory))
    } else if rf_raster_of(defs, mandatory) is Err {
        failure_of(rf_raster_of(defs, mandatory))
    } else if adc_raster_of(defs, mandatory) is Err {
        failure_of(adc_raster_of(defs, mandatory))
    } else if block_raster_of(defs, mandatory) is Err {
        failure_of(block_raster_of(defs, mandatory))
    } else {
        failure_of(fov_of(defs))
    }
}

/// The definitions that are not read here: all but the raster times, the
/// name and the field of view.
pub open spec fn leftover(defs: Seq<(String, String)>) -> Seq<(String, String)> {
    without(
        without(
            without(
                without(
                    without(without(defs, "GradientRasterTime"@), "RadiofrequencyRasterTime"@),
                    "AdcRasterTime"@,
                ),
                "BlockDurationRaster"@,
            ),
            "Name"@,
        ),
        "FOV"@,
    )
}

/// What the definitions of a file say.
#[derive(Debug)]
pub struct Defs {
    pub name: Option<String>,
    pub fov: Option<(Fixed, Fixed, Fixed)>,
    pub time_raster: TimeRaster,
    /// The definitions that were not read.
    pub defs: Vec<(String, String)>,
}

impl Defs {
    /// This is what `defs` say, in a file that must give the raster times or
    /// in one that need not.
    pub open spec fn reads(&self, defs: Seq<(String, String)>, mandatory: bool) -> bool {
        &&& grad_raster_of(defs, mandatory) == Ok::<Fixed, ConversionError>(self.time_raster.grad)
        &&& rf_raster_of(defs, mandatory) == Ok::<Fixed, ConversionError>(self.time_raster.rf)
        &&& adc_raster_of(defs, mandatory) == Ok::<Fixed, ConversionError>(self.time_raster.adc)
        &&& block_raster_of(defs, mandatory) == Ok::<Fixed, ConversionError>(
            self.time_raster.block,
        )
        &&& match self.name {
            Some(name) => value_of(defs, "Name"@) == Some(name@),
            None => value_of(defs, "Name"@) is None,
        }
        &&& fov_of(defs) == Ok::<Option<(Fixed, Fixed, Fixed)>, ConversionError>(self.fov)
        &&& self.defs@ == leftover(defs)
        &&& keys_of(self.defs@).no_duplicates()
    }
}

/// Definitions of which no key stands twice stay so where one is taken out.
pub proof fn lemma_without_keeps_keys_apart(defs: Seq<(String, String)>, key: Seq<char>)
    requires
        keys_of(defs).no_duplicates(),
    ensures
        keys_of(without(defs, key)).no_duplicates(),
{
    match find_key(defs, key, 0) {
        Some(i) => {
            lemma_find_key_in_range(defs, key, 0);
            let rest = defs.remove(i);
            let keys = keys_of(defs);
            assert forall|a: int, b: int| 0 <= a < b < rest.len() implies #[trigger] keys_of(
                rest,
            )[a] != #[trigger] keys_of(rest)[b] by {
                let from_a = if a < i {
                    a
                } else {
                    a + 1
                };
                let from_b = if b < i {
                    b
                } else {
                    b + 1
                };
                assert(keys_of(rest)[a] == keys[from_a]);
                assert(keys_of(rest)[b] == keys[from_b]);
            }
        },
        None => {},
    }
}

/// A definition that is found stands in the list, at or behind the place
/// from which it was looked for.
pub proof fn lemma_find_key_in_range(defs: Seq<(String, String)>, key: Seq<char>, from: int)
    requires
        0 <= from,
    ensures
        find_key(defs, key, from) is Some ==> from <= find_key(defs, key, from)->Some_0
            < defs.len(),
    decreases defs.len() - from,
{
    if from < defs.len() && defs[from].0@ != key {
        lemma_find_key_in_range(defs, key, from + 1);
    }
}

/// Where the definition of `key` stands.
fn position(defs: &Vec<(String, String)>, key: &str) -> (at: Option<usize>)
    ensures
        match at {
            Some(i) => find_key(defs@, key@, 0) == Some(i as int) && i < defs@.len(),
            None => find_key(defs@, key@, 0) is None,
        },
{
    let wanted: String = key.to_owned();
    let mut i: usize = 0;
    while i < defs.len()
        invariant
            i <= defs@.len(),
            wanted@ == key@,
            find_key(defs@, key@, 0) == find_key(defs@, key@, i as int),
        decreases defs.len() - i,
    {
        if defs[i].0 == wanted {
            return Some(i);
        }
        i = i + 1;
    }
    None
}

/// Tells whether a key stands twice.
fn has_repeated_key(defs: &Vec<(String, String)>) -> (r: bool)
    ensures
        r == !keys_of(defs@).no_duplicates(),
{
    let ghost keys = keys_of(defs@);
    let mut i: usize = 0;
    while i < defs.len()
        invariant
            i <= defs@.len(),
            keys == keys_of(defs@),
            forall|a: int, b: int| 0 <= a < b < i ==> keys[a] != keys[b],
        decreases defs.len() - i,
    {
        let mut j: usize = 0;
        while j < i
            invariant
                j <= i < defs@.len(),
                keys == keys_of(defs@),
                forall|a: int| 0 <= a < j ==> keys[a] != keys[i as int],
            decreases i - j,
        {
            if defs[j].0 == defs[i].0 {
                assert(keys[j as int] == keys[i as int]);
                return true;
            }
            j = j + 1;
        }
        i = i + 1;
    }
    false
}

/// Reads the raster time under `key`.
fn read_raster(
    defs: &Vec<(String, String)>,
    key: &str,
    mandatory: bool,
    missing: MissingDefinition,
    fallback: Fixed,
) -> (raster: Result<Fixed, ConversionError>)
    ensures
        raster == raster_of(defs@, key@, mandatory, missing, fallback),
{
    match position(defs, key) {
        None => if mandatory {
            Err(ConversionError::MissingDefinition(missing))
        } else {
            Ok(fallback)
        },
        Some(i) => match parse_number(defs[i].1.as_str()) {
            Ok(raster) => Ok(raster),
            Err(e) => Err(ConversionError::ParseFloat(e)),
        },
    }
}

/// Takes the definition of `key` out of the list.
fn remove_key(defs: &mut Vec<(String, String)>, key: &str)
    ensures
        final(defs)@ == without(old(defs)@, key@),
{
    match position(defs, key) {
        Some(i) => {
            defs.remove(i);
        },
        None => {},
    }
}

/// Reads the definitions of a file of the dialect `version`.
///
/// A dialect that makes the raster times mandatory fails without them with
/// the [`MissingDefinition`] of the first that is missing; another dialect
/// has [`TimeRaster::fallback`] for each that is missing.
pub fn convert_defs(version: &Version, defs: Vec<(String, String)>) -> (read: Result<
    Defs,
    ConversionError,
>)
    ensures
        match read {
            Ok(read) => definitions_failure(defs@, version.has_mandatory_rasters()) is None
                && read.reads(defs@, version.has_mandatory_rasters()),
            Err(e) => definitions_failure(defs@, version.has_mandatory_rasters()) == Some(e),
        },
{
    let mandatory: bool = version.mandatory_rasters();
    if has_repeated_key(&defs) {
        return Err(ConversionError::NonUniqueDefinition);
    }
    let grad: Fixed = match read_raster(
        &defs,
        "GradientRasterTime",
        mandatory,
        MissingDefinition::GradientRasterTime,
        10_000,
    ) {
        Ok(raster) => raster,
        Err(e) => {
            return Err(e);
        },
    };
    let rf: Fixed = match read_raster(
        &defs,
        "RadiofrequencyRasterTime",
        mandatory,
        MissingDefinition::RadiofrequencyRasterTime,
        1_000,
    ) {
        Ok(raster) => raster,
        Err(e) => {
            return Err(e);
        },
    };
    let adc: Fixed = match read_raster(
        &defs,
        "AdcRasterTime",
        mandatory,
        MissingDefinition::AdcRasterTime,
        100,
    ) {
        Ok(raster) => raster,
        Err(e) => {
            return Err(e);
        },
    };
    let block: Fixed = match read_raster(
        &defs,
        "BlockDurationRaster",
        mandatory,
        MissingDefinition::BlockDurationRaster,
        10_000,
    ) {
        Ok(raster) => raster,
        Err(e) => {
            return Err(e);
        },
    };
    let name: Option<String> = match position(&defs, "Name") {
        Some(i) => Some(defs[i].1.clone()),
        None => None,
    };
    let fov: Option<(Fixed, Fixed, Fixed)> = match position(&defs, "FOV") {
        Some(i) => match parse_fov(defs[i].1.as_str()) {
            Ok(fov) => Some(fov),
            Err(e) => {
                return Err(ConversionError::ParseFovError(e));
            },
        },
        None => None,
    };
    let mut rest: Vec<(String, String)> = defs;
    remove_key(&mut rest, "GradientRasterTime");
    remove_key(&mut rest, "RadiofrequencyRasterTime");
    remove_key(&mut rest, "AdcRasterTime");
    remove_key(&mut rest, "BlockDurationRaster");
    remove_key(&mut rest, "Name");
    remove_key(&mut rest, "FOV");
    proof {
        let first = without(defs@, "GradientRasterTime"@);
        let second = without(first, "RadiofrequencyRasterTime"@);
        let third = without(second, "AdcRasterTime"@);
        let fourth = without(third, "BlockDurationRaster"@);
        let fifth = without(fourth, "Name"@);
        lemma_without_keeps_keys_apart(defs@, "GradientRasterTime"@);
        lemma_without_keeps_keys_apart(first, "RadiofrequencyRasterTime"@);
        lemma_without_keeps_keys_apart(second, "AdcRasterTime"@);
        lemma_without_keeps_keys_apart(third, "BlockDurationRaster"@);
        lemma_without_keeps_keys_apart(fourth, "Name"@);
        lemma_without_keeps_keys_apart(fifth, "FOV"@);
    }
    Ok(Defs { name, fov, time_raster: TimeRaster { grad, rf, adc, block }, defs: rest })
}

} // verus!

use std::sync::Arc;

use pulseq_rs::error::{
    ConversionError, Error, EventType, MissingDefinition, ParseError, SectionType, ValidationError,
};
use pulseq_rs::parse_file::{self, BlockDuration, Section, Version};
use pulseq_rs::sequence::from_raw::{convert_sec, from_raw};
use pulseq_rs::{Adc, Block, Gradient, Rf, Sequence, Shape, TimeRaster};

const US: i64 = 1_000;
const MS: i64 = 1_000_000;
const ONE: i64 = 1_000_000_000;

fn version(minor: u32) -> Section {
    Section::Version(Version { major: 1, minor, revision: 0, rev_suppl: None })
}

fn rasters() -> Section {
    Section::Definitions(
        [
            ("GradientRasterTime", "1e-05"),
            ("RadiofrequencyRasterTime", "1e-06"),
            ("AdcRasterTime", "1e-07"),
            ("BlockDurationRaster", "1e-05"),
        ]
        .iter()
        .map(|(k, v)| (k.to_string(), v.to_string()))
        .collect(),
    )
}

fn shape(id: u32, samples: &[i64]) -> parse_file::Shape {
    parse_file::Shape { id, samples: samples.iter().map(|x| x * ONE).collect() }
}

fn rf(id: u32, mag_id: u32, phase_id: u32, time_id: u32) -> parse_file::Rf {
    parse_file::Rf {
        id,
        amp: 100 * ONE,
        mag_id,
        phase_id,
        time_id,
        delay: 100 * US,
        freq: 0,
        phase: 0,
    }
}

fn trap(id: u32) -> parse_file::Trap {
    parse_file::Trap {
        id,
        amp: 1000 * ONE,
        rise: 100 * US,
        flat: 300 * US,
        fall: 100 * US,
        delay: 0,
    }
}

fn gradient(id: u32, shape_id: u32, time_id: u32) -> parse_file::Gradient {
    parse_file::Gradient { id, amp: 500 * ONE, shape_id, time_id, delay: 20 * US }
}

fn adc(id: u32) -> parse_file::Adc {
    parse_file::Adc { id, num: 64, dwell: 10 * US, delay: 50 * US, freq: 0, phase: 0 }
}

fn block(id: u32, dur: BlockDuration, refs: [u32; 5]) -> parse_file::Block {
    parse_file::Block {
        id,
        dur,
        rf: refs[0],
        gx: refs[1],
        gy: refs[2],
        gz: refs[3],
        adc: refs[4],
        ext: 0,
    }
}

fn small_file() -> Vec<Section> {
    vec![
        version(4),
        rasters(),
        Section::Shapes(vec![shape(1, &[0, 1, 1, 0]), shape(2, &[0, 0, 0, 0])]),
        Section::Shapes(vec![shape(3, &[0, 2, 5, 7]), shape(4, &[1, 2, 3])]),
        Section::Rfs(vec![rf(1, 1, 2, 0), rf(2, 1, 2, 3)]),
        Section::Gradients(vec![gradient(1, 4, 0), gradient(5, 1, 3)]),
        Section::Traps(vec![trap(2), trap(3)]),
        Section::Adcs(vec![adc(7)]),
        Section::Blocks(vec![
            block(1, BlockDuration::Duration(100), [1, 1, 2, 0, 0]),
            block(2, BlockDuration::Duration(80), [0, 2, 2, 3, 7]),
            block(3, BlockDuration::Duration(50), [2, 5, 0, 0, 0]),
            block(4, BlockDuration::Duration(0), [0, 0, 0, 0, 0]),
        ]),
    ]
}

#[test]
fn small_file_resolves() {
    let sequence = from_raw(small_file()).unwrap();
    assert_eq!(
        sequence.time_raster,
        TimeRaster { grad: 10 * US, rf: US, adc: 100, block: 10 * US }
    );
    assert_eq!(sequence.blocks.len(), 4);
    let first = &sequence.blocks[0];
    assert_eq!(first.id, 1);
    assert_eq!(first.duration, (MS) as i128);
    let pulse = first.rf.as_ref().unwrap();
    assert_eq!(pulse.amp, 100 * ONE);
    assert_eq!(pulse.delay, 100 * US);
    assert_eq!(pulse.amp_shape.0, vec![0, ONE, ONE, 0]);
    assert_eq!(pulse.phase_shape.0, vec![0, 0, 0, 0]);
    assert!(matches!(**first.gx.as_ref().unwrap(), Gradient::Free { amp, delay, .. }
        if amp == 500 * ONE && delay == 20 * US));
    assert!(matches!(**first.gy.as_ref().unwrap(), Gradient::Trap { rise, flat, fall, .. }
        if rise == 100 * US && flat == 300 * US && fall == 100 * US));
    assert!(first.gz.is_none());
    assert!(first.adc.is_none());
    let second = &sequence.blocks[1];
    assert_eq!(second.duration, (800 * US) as i128);
    assert!(second.rf.is_none());
    assert_eq!(**second.adc.as_ref().unwrap(), Adc {
        num: 64,
        dwell: 10 * US,
        delay: 50 * US,
        freq: 0,
        phase: 0
    });
    let last = &sequence.blocks[3];
    assert_eq!(last.duration, 0);
    assert!(last.rf.is_none() && last.gx.is_none() && last.adc.is_none());
}

#[test]
fn blocks_share_what_they_name_alike() {
    let sequence = from_raw(small_file()).unwrap();
    let a = sequence.blocks[0].gy.as_ref().unwrap();
    let b = sequence.blocks[1].gx.as_ref().unwrap();
    let c = sequence.blocks[1].gy.as_ref().unwrap();
    assert!(Arc::ptr_eq(a, b));
    assert!(Arc::ptr_eq(b, c));
    assert!(!Arc::ptr_eq(a, sequence.blocks[1].gz.as_ref().unwrap()));
}

#[test]
fn expanded_shape_is_made_once() {
    let sequence = from_raw(small_file()).unwrap();
    let pulse = sequence.blocks[2].rf.as_ref().unwrap();
    let eighth = ONE / 8;
    assert_eq!(pulse.amp_shape.0, vec![
        2 * eighth,
        6 * eighth,
        ONE,
        ONE,
        ONE,
        6 * eighth,
        2 * eighth
    ]);
    assert_eq!(pulse.phase_shape.0, vec![0; 7]);
    let gradient = sequence.blocks[2].gx.as_ref().unwrap();
    match &**gradient {
        Gradient::Free { shape, .. } => assert!(Arc::ptr_eq(shape, &pulse.amp_shape)),
        Gradient::Trap { .. } => panic!("an arbitrary gradient was declared"),
    }
    // Without a time shape the shape of the file itself is handed out.
    let plain = sequence.blocks[0].rf.as_ref().unwrap();
    assert!(!Arc::ptr_eq(&plain.amp_shape, &pulse.amp_shape));
}

#[test]
fn version_section_must_stand_once() {
    assert_eq!(from_raw(vec![]).err(), Some(ConversionError::VersionSectionCount(0)));
    assert_eq!(
        from_raw(vec![rasters(), Section::Blocks(vec![])]).err(),
        Some(ConversionError::VersionSectionCount(0))
    );
    assert_eq!(
        from_raw(vec![version(4), rasters(), version(4)]).err(),
        Some(ConversionError::VersionSectionCount(2))
    );
}

#[test]
fn empty_new_file_lacks_its_rasters() {
    assert_eq!(
        from_raw(vec![version(4)]).err(),
        Some(ConversionError::MissingDefinition(MissingDefinition::GradientRasterTime))
    );
}

#[test]
fn empty_old_file_is_an_empty_sequence() {
    let sequence = from_raw(vec![version(2)]).unwrap();
    assert!(sequence.blocks.is_empty());
    assert_eq!(sequence.time_raster, TimeRaster::default());
    assert_eq!(sequence.name, None);
    assert_eq!(sequence.fov, None);
    assert!(sequence.definitions.is_empty());
}

#[test]
fn definitions_of_several_sections_are_read_together() {
    let more = Section::Definitions(vec![("Name".to_string(), "tse".to_string())]);
    let sequence = from_raw(vec![more, version(4), rasters()]).unwrap();
    assert_eq!(sequence.name.as_deref(), Some("tse"));
    let again = Section::Definitions(vec![("AdcRasterTime".to_string(), "1".to_string())]);
    assert_eq!(
        from_raw(vec![version(4), rasters(), again]).err(),
        Some(ConversionError::NonUniqueDefinition)
    );
}

#[test]
fn two_adc_sections_with_the_same_id() {
    let sections = vec![
        version(4),
        rasters(),
        Section::Adcs(vec![adc(7)]),
        Section::Blocks(vec![block(1, BlockDuration::Duration(1), [9, 9, 9, 9, 9])]),
        Section::Adcs(vec![adc(7)]),
    ];
    assert_eq!(
        from_raw(sections).err(),
        Some(ConversionError::EventIdReuse(SectionType::Adcs))
    );
}

#[test]
fn reused_id_names_its_kind() {
    let base = || vec![version(3), Section::Shapes(vec![shape(1, &[1]), shape(2, &[1])])];
    let cases: Vec<(Section, SectionType)> = vec![
        (Section::Shapes(vec![shape(2, &[5])]), SectionType::Shapes),
        (
            Section::Delays(vec![
                parse_file::Delay { id: 1, delay: 5 },
                parse_file::Delay { id: 1, delay: 5 },
            ]),
            SectionType::Delays,
        ),
        (Section::Adcs(vec![adc(2), adc(3), adc(2)]), SectionType::Adcs),
        (Section::Rfs(vec![rf(4, 1, 2, 0), rf(4, 1, 2, 0)]), SectionType::Rfs),
        (
            Section::Gradients(vec![gradient(1, 1, 0), gradient(2, 1, 0), gradient(1, 2, 0)]),
            SectionType::Gradients,
        ),
        (Section::Traps(vec![trap(6), trap(6)]), SectionType::Traps),
    ];
    for (section, ty) in cases {
        let mut sections = base();
        sections.push(section);
        assert_eq!(from_raw(sections).err(), Some(ConversionError::EventIdReuse(ty)));
    }
}

#[test]
fn gradient_and_trapezoid_share_their_ids() {
    let shapes = || Section::Shapes(vec![shape(1, &[1, 1])]);
    let one = vec![
        version(3),
        shapes(),
        Section::Gradients(vec![gradient(3, 1, 0)]),
        Section::Traps(vec![trap(2), trap(3)]),
    ];
    assert_eq!(from_raw(one).err(), Some(ConversionError::GradTrapIdReuse));
    let other = vec![
        Section::Traps(vec![trap(3)]),
        Section::Gradients(vec![gradient(1, 1, 0), gradient(3, 1, 0)]),
        shapes(),
        version(3),
    ];
    assert_eq!(from_raw(other).err(), Some(ConversionError::GradTrapIdReuse));
}

#[test]
fn shape_zero_is_refused() {
    let sections = vec![version(3), Section::Shapes(vec![shape(1, &[1]), shape(0, &[1])])];
    assert_eq!(from_raw(sections).err(), Some(ConversionError::ShapeIndexZero));
}

#[test]
fn missing_shape_is_named() {
    let sections = vec![
        version(3),
        Section::Shapes(vec![shape(1, &[1])]),
        Section::Rfs(vec![rf(1, 1, 9, 0)]),
    ];
    assert_eq!(from_raw(sections).err(), Some(ConversionError::ShapeNotFound(9)));
    let sections = vec![
        version(4),
        rasters(),
        Section::Shapes(vec![shape(1, &[1])]),
        Section::Rfs(vec![rf(1, 1, 1, 4)]),
    ];
    assert_eq!(from_raw(sections).err(), Some(ConversionError::ShapeNotFound(4)));
    let sections = vec![version(3), Section::Gradients(vec![gradient(1, 0, 0)])];
    assert_eq!(from_raw(sections).err(), Some(ConversionError::ShapeNotFound(0)));
}

#[test]
fn time_shape_failures_come_through() {
    let with = |time: parse_file::Shape| {
        vec![
            version(4),
            rasters(),
            Section::Shapes(vec![shape(1, &[0, 1, 0]), time]),
            Section::Gradients(vec![gradient(1, 1, 2)]),
        ]
    };
    assert_eq!(
        from_raw(with(shape(2, &[0, 5]))).err(),
        Some(ConversionError::TimeShapeMismatch { shape_len: 3, time_len: 2 })
    );
    assert_eq!(
        from_raw(with(shape(2, &[0, 5, 4]))).err(),
        Some(ConversionError::TimeShapeNonIncreasing)
    );
    let fractional = parse_file::Shape { id: 2, samples: vec![0, ONE / 2, ONE] };
    assert_eq!(from_raw(with(fractional)).err(), Some(ConversionError::TimeShapeNonInteger));
}

#[test]
fn broken_references_name_slot_and_id() {
    let with = |refs: [u32; 5], dur: BlockDuration| {
        vec![
            version(3),
            Section::Shapes(vec![shape(1, &[1])]),
            Section::Rfs(vec![rf(1, 1, 1, 0)]),
            Section::Traps(vec![trap(1)]),
            Section::Adcs(vec![adc(1)]),
            Section::Delays(vec![parse_file::Delay { id: 1, delay: MS }]),
            Section::Blocks(vec![block(1, BlockDuration::DelayId(1), [1; 5]), block(2, dur, refs)]),
        ]
    };
    let cases = [
        ([2, 1, 1, 1, 1], BlockDuration::DelayId(1), EventType::Rf),
        ([1, 2, 1, 1, 1], BlockDuration::DelayId(1), EventType::Gx),
        ([1, 1, 2, 1, 1], BlockDuration::DelayId(1), EventType::Gy),
        ([1, 1, 1, 2, 1], BlockDuration::DelayId(1), EventType::Gz),
        ([1, 1, 1, 1, 2], BlockDuration::DelayId(1), EventType::Adc),
        ([1, 1, 1, 1, 1], BlockDuration::DelayId(2), EventType::Delay),
        ([2, 2, 2, 2, 2], BlockDuration::DelayId(2), EventType::Rf),
        ([0, 0, 2, 0, 2], BlockDuration::DelayId(2), EventType::Gy),
    ];
    for (refs, dur, ty) in cases {
        assert_eq!(
            from_raw(with(refs, dur)).err(),
            Some(ConversionError::BrokenRef { ty, id: 2 })
        );
    }
    assert!(from_raw(with([0, 1, 0, 1, 0], BlockDuration::DelayId(0))).is_ok());
    assert!(from_raw(with([1, 1, 1, 1, 1], BlockDuration::Duration(2))).is_ok());
}

#[test]
fn old_block_lasts_as_long_as_its_longest_event() {
    let sections = |refs: [u32; 5], delay: u32| {
        vec![
            version(2),
            Section::Shapes(vec![shape(1, &[1; 500]), shape(2, &[1; 90])]),
            Section::Rfs(vec![rf(1, 1, 1, 0)]),
            Section::Gradients(vec![gradient(1, 2, 0)]),
            Section::Traps(vec![trap(2)]),
            Section::Adcs(vec![adc(1)]),
            Section::Delays(vec![
                parse_file::Delay { id: 1, delay: 2 * MS },
                parse_file::Delay { id: 2, delay: 10 * US },
                parse_file::Delay { id: 3, delay: -5 * US },
            ]),
            Section::Blocks(vec![block(1, BlockDuration::DelayId(delay), refs)]),
        ]
    };
    let duration = |refs: [u32; 5], delay: u32| {
        from_raw(sections(refs, delay)).unwrap().blocks[0].duration
    };
    // The pulse: 100 us of delay and 500 samples of 1 us.
    assert_eq!(duration([1, 0, 0, 0, 0], 0), (600 * US) as i128);
    // The arbitrary gradient: 20 us of delay and 90 samples of 10 us.
    assert_eq!(duration([0, 1, 0, 0, 0], 0), (920 * US) as i128);
    // The trapezoid: 100 + 300 + 100 us.
    assert_eq!(duration([0, 0, 0, 2, 0], 0), (500 * US) as i128);
    // The sampling window: 50 us of delay and 64 samples of 10 us.
    assert_eq!(duration([0, 0, 0, 0, 1], 0), (690 * US) as i128);
    assert_eq!(duration([1, 1, 2, 2, 1], 0), (920 * US) as i128);
    assert_eq!(duration([1, 0, 2, 0, 1], 2), (690 * US) as i128);
    assert_eq!(duration([1, 1, 2, 2, 1], 1), (2 * MS) as i128);
    assert_eq!(duration([0, 0, 0, 0, 0], 2), (10 * US) as i128);
    assert_eq!(duration([0, 0, 0, 0, 0], 0), 0);
    // Only what is there counts: a block with nothing but a negative delay.
    assert_eq!(duration([0, 0, 0, 0, 0], 3), (-5 * US) as i128);
}

#[test]
fn new_block_lasts_as_long_as_it_says() {
    let sequence = from_raw(small_file()).unwrap();
    assert_eq!(sequence.blocks[2].duration, (500 * US) as i128);
    let sections = vec![
        version(4),
        rasters(),
        Section::Blocks(vec![block(1, BlockDuration::Duration(u32::MAX), [0; 5])]),
    ];
    let sequence = from_raw(sections).unwrap();
    assert_eq!(sequence.blocks[0].duration, (u32::MAX as i128) * 10_000);
}

#[test]
fn blocks_of_several_sections_keep_the_order_of_the_file() {
    let sections = vec![
        Section::Blocks(vec![block(5, BlockDuration::Duration(1), [0; 5])]),
        version(4),
        Section::Blocks(vec![
            block(2, BlockDuration::Duration(1), [0; 5]),
            block(9, BlockDuration::Duration(1), [0; 5]),
        ]),
        rasters(),
        Section::Blocks(vec![block(1, BlockDuration::Duration(1), [0; 5])]),
    ];
    let ids: Vec<u32> = from_raw(sections).unwrap().blocks.iter().map(|b| b.id).collect();
    assert_eq!(ids, vec![5, 2, 9, 1]);
}

#[test]
fn earlier_checks_come_first() {
    // A missing shape in a pulse comes before a reused id among the pulses,
    // and both before a broken reference.
    let sections = vec![
        version(3),
        Section::Shapes(vec![shape(1, &[1])]),
        Section::Rfs(vec![rf(1, 1, 1, 0), rf(1, 1, 1, 0), rf(2, 8, 1, 0)]),
        Section::Blocks(vec![block(1, BlockDuration::DelayId(0), [7, 0, 0, 0, 0])]),
    ];
    assert_eq!(from_raw(sections).err(), Some(ConversionError::ShapeNotFound(8)));
    let sections = vec![
        version(3),
        Section::Shapes(vec![shape(1, &[1])]),
        Section::Rfs(vec![rf(1, 1, 1, 0), rf(1, 1, 1, 0)]),
        Section::Blocks(vec![block(1, BlockDuration::DelayId(0), [7, 0, 0, 0, 0])]),
    ];
    assert_eq!(
        from_raw(sections).err(),
        Some(ConversionError::EventIdReuse(SectionType::Rfs))
    );
}

#[test]
fn table_of_records() {
    let table = convert_sec(SectionType::Delays, vec![(3, "c"), (1, "a"), (2, "b")]).unwrap();
    assert_eq!(table.len(), 3);
    assert_eq!(table[&1], "a");
    assert_eq!(table[&2], "b");
    assert_eq!(table[&3], "c");
    assert_eq!(
        convert_sec(SectionType::Traps, vec![(3, "c"), (1, "a"), (3, "b")]).err(),
        Some(ConversionError::EventIdReuse(SectionType::Traps))
    );
    assert!(convert_sec::<u8>(SectionType::Rfs, vec![]).unwrap().is_empty());
}

fn plain_rf(samples: usize, delay: i64) -> Arc<Rf> {
    Arc::new(Rf {
        amp: ONE,
        phase: 0,
        delay,
        freq: 0,
        amp_shape: Arc::new(Shape(vec![ONE; samples])),
        phase_shape: Arc::new(Shape(vec![0; samples])),
    })
}

fn one_block(block: Block) -> Sequence {
    Sequence {
        time_raster: TimeRaster::default(),
        name: None,
        fov: None,
        definitions: vec![],
        blocks: vec![block],
    }
}

fn empty_block(id: u32, duration: i128) -> Block {
    Block { id, duration, rf: None, gx: None, gy: None, gz: None, adc: None }
}

#[test]
fn pulse_longer_than_its_block() {
    // 100 us of delay and 5000 samples of 1 us make 5.1 ms in a block of 5 ms.
    let block = Block { rf: Some(plain_rf(5000, 100 * US)), ..empty_block(12, (5 * MS) as i128) };
    assert_eq!(
        one_block(block).validate(),
        Err(ValidationError::EventTooLong {
            ty: EventType::Rf,
            block_id: 12,
            dur: 5_100_000,
            block_dur: 5_000_000,
        })
    );
}

#[test]
fn event_as_long_as_its_block_passes() {
    let block = Block { rf: Some(plain_rf(5000, 0)), ..empty_block(1, (5 * MS) as i128) };
    assert_eq!(one_block(block).validate(), Ok(()));
    let block = Block { rf: Some(plain_rf(5000, 1)), ..empty_block(1, (5 * MS) as i128) };
    assert!(one_block(block).validate().is_err());
}

#[test]
fn each_slot_is_checked_for_its_length() {
    let long = Arc::new(Gradient::Trap { amp: 0, rise: MS, flat: MS, fall: MS, delay: MS });
    let window = Arc::new(Adc { num: 100, dwell: 10 * US, delay: 1, freq: 0, phase: 0 });
    let limit = MS as i128;
    let too_long = |ty, dur| {
        Err(ValidationError::EventTooLong { ty, block_id: 3, dur, block_dur: limit })
    };
    let block = Block { gx: Some(long.clone()), ..empty_block(3, limit) };
    assert_eq!(one_block(block).validate(), too_long(EventType::Gx, 4 * limit));
    let block = Block { gy: Some(long.clone()), ..empty_block(3, limit) };
    assert_eq!(one_block(block).validate(), too_long(EventType::Gy, 4 * limit));
    let block = Block { gz: Some(long.clone()), ..empty_block(3, limit) };
    assert_eq!(one_block(block).validate(), too_long(EventType::Gz, 4 * limit));
    let block = Block { adc: Some(window.clone()), ..empty_block(3, limit) };
    assert_eq!(one_block(block).validate(), too_long(EventType::Adc, limit + 1));
    let block = Block { gz: Some(long), adc: Some(window), ..empty_block(3, limit) };
    assert_eq!(one_block(block).validate(), too_long(EventType::Gz, 4 * limit));
}

#[test]
fn shapes_of_a_pulse_must_agree() {
    let pulse = Arc::new(Rf {
        amp: ONE,
        phase: 0,
        delay: 0,
        freq: 0,
        amp_shape: Arc::new(Shape(vec![ONE; 10])),
        phase_shape: Arc::new(Shape(vec![0; 8])),
    });
    let block = Block { rf: Some(pulse), ..empty_block(4, ONE as i128) };
    assert_eq!(
        one_block(block).validate(),
        Err(ValidationError::ShapeMismatch {
            ty: EventType::Rf,
            block_id: 4,
            length_1: 8,
            length_2: 10,
        })
    );
}

#[test]
fn times_must_not_be_negative() {
    let negative = |ty, timing| Err(ValidationError::NegativeTiming { ty, block_id: 8, timing });
    let room = ONE as i128;
    let block = Block { rf: Some(plain_rf(4, -3)), ..empty_block(8, room) };
    assert_eq!(one_block(block).validate(), negative(EventType::Rf, -3));
    let free = Arc::new(Gradient::Free { amp: 0, delay: -1, shape: Arc::new(Shape(vec![])) });
    let block = Block { gx: Some(free), ..empty_block(8, room) };
    assert_eq!(one_block(block).validate(), negative(EventType::Gx, -1));
    let traps = [
        (Gradient::Trap { amp: 0, rise: -1, flat: -2, fall: -3, delay: -4 }, -1),
        (Gradient::Trap { amp: 0, rise: 1, flat: -2, fall: -3, delay: -4 }, -2),
        (Gradient::Trap { amp: 0, rise: 1, flat: 2, fall: -3, delay: -4 }, -3),
        (Gradient::Trap { amp: -5, rise: 1, flat: 2, fall: 3, delay: -4 }, -4),
    ];
    for (trap, timing) in traps {
        let block = Block { gy: Some(Arc::new(trap)), ..empty_block(8, room) };
        assert_eq!(one_block(block).validate(), negative(EventType::Gy, timing));
    }
    let window = Adc { num: 0, dwell: -2, delay: -1, freq: 0, phase: 0 };
    let block = Block { adc: Some(Arc::new(window)), ..empty_block(8, room) };
    assert_eq!(one_block(block).validate(), negative(EventType::Adc, -2));
    let window = Adc { num: 0, dwell: 2, delay: -1, freq: 0, phase: 0 };
    let block = Block { adc: Some(Arc::new(window)), ..empty_block(8, room) };
    assert_eq!(one_block(block).validate(), negative(EventType::Adc, -1));
}

#[test]
fn blocks_are_checked_one_by_one() {
    // The first block holds a pulse with a negative delay, the second a
    // pulse that outlasts it: the first block is reported.
    let faulty = Block { rf: Some(plain_rf(4, -3)), ..empty_block(1, ONE as i128) };
    let long = Block { rf: Some(plain_rf(4, 0)), ..empty_block(2, 3 * US as i128) };
    let sequence = Sequence { blocks: vec![faulty, long], ..one_block(empty_block(0, 0)) };
    assert_eq!(
        sequence.validate(),
        Err(ValidationError::NegativeTiming { ty: EventType::Rf, block_id: 1, timing: -3 })
    );
    let long = Block { rf: Some(plain_rf(4, 0)), ..empty_block(1, 3 * US as i128) };
    let faulty = Block { rf: Some(plain_rf(4, -3)), ..empty_block(2, ONE as i128) };
    let sequence = Sequence { blocks: vec![long, faulty], ..one_block(empty_block(0, 0)) };
    assert_eq!(
        sequence.validate(),
        Err(ValidationError::EventTooLong {
            ty: EventType::Rf,
            block_id: 1,
            dur: 4_000,
            block_dur: 3_000,
        })
    );
}

#[test]
fn length_comes_first_within_a_block() {
    // The gradient on z outlasts the block, and the pulse has a negative
    // delay: the length is reported, though the pulse comes first.
    let long = Arc::new(Gradient::Trap { amp: 0, rise: MS, flat: MS, fall: MS, delay: MS });
    let block = Block {
        rf: Some(plain_rf(4, -3)),
        gz: Some(long),
        ..empty_block(6, MS as i128)
    };
    assert_eq!(
        one_block(block).validate(),
        Err(ValidationError::EventTooLong {
            ty: EventType::Gz,
            block_id: 6,
            dur: 4 * MS as i128,
            block_dur: MS as i128,
        })
    );
    let block = Block { rf: Some(plain_rf(4, -3)), ..empty_block(6, MS as i128) };
    assert_eq!(
        block.validate(&TimeRaster::default()),
        Err(ValidationError::NegativeTiming { ty: EventType::Rf, block_id: 6, timing: -3 })
    );
}

#[test]
fn durations_of_events() {
    assert_eq!(plain_rf(500, 100 * US).duration(US), (600 * US) as i128);
    assert_eq!(plain_rf(0, 7).duration(US), 7);
    let free = Gradient::Free { amp: 0, delay: 20 * US, shape: Arc::new(Shape(vec![0; 90])) };
    assert_eq!(free.duration(10 * US), (920 * US) as i128);
    assert_eq!(free.delay(), 20 * US);
    let flat = Gradient::Trap { amp: 0, rise: 1, flat: 2, fall: 3, delay: 4 };
    assert_eq!(flat.duration(10 * US), 10);
    assert_eq!(flat.delay(), 4);
    let window = Adc { num: 64, dwell: 10 * US, delay: 50 * US, freq: 0, phase: 0 };
    assert_eq!(window.duration(), (690 * US) as i128);
    let widest = Adc { num: u32::MAX, dwell: i64::MIN, delay: i64::MIN, freq: 0, phase: 0 };
    assert_eq!(widest.duration(), (i64::MIN as i128) * (u32::MAX as i128 + 1));
}

#[test]
fn parsed_file_is_resolved_and_checked() {
    assert!(Sequence::from_parsed_file(small_file()).is_ok());
    let mut sections = small_file();
    sections.push(Section::Blocks(vec![block(5, BlockDuration::Duration(10), [1, 0, 0, 0, 0])]));
    assert_eq!(
        Sequence::from_parsed_file(sections).err(),
        Some(Error::ValidationError(ValidationError::EventTooLong {
            ty: EventType::Rf,
            block_id: 5,
            dur: 104_000,
            block_dur: 100_000,
        }))
    );
    assert_eq!(
        Sequence::from_parsed_file(vec![]).err(),
        Some(Error::ConversionError(ConversionError::VersionSectionCount(0)))
    );
}

#[test]
fn names_of_slots_and_kinds() {
    let slots = [
        (EventType::Rf, "RF"),
        (EventType::Gx, "GX"),
        (EventType::Gy, "GY"),
        (EventType::Gz, "GZ"),
        (EventType::Adc, "ADC"),
        (EventType::Delay, "Delay"),
    ];
    for (slot, name) in slots {
        assert_eq!(slot.name(), name);
    }
    let kinds = [
        (SectionType::Shapes, "Shapes"),
        (SectionType::Delays, "Delays"),
        (SectionType::Adcs, "Adcs"),
        (SectionType::Rfs, "Rfs"),
        (SectionType::Gradients, "Gradients"),
        (SectionType::Traps, "Traps"),
    ];
    for (kind, name) in kinds {
        assert_eq!(kind.name(), name);
    }
}

#[test]
fn other_dialects_are_not_resolved() {
    let other = |major, minor| {
        Section::Version(Version { major, minor, revision: 7, rev_suppl: Some("x".to_string()) })
    };
    for (major, minor) in [(1, 5), (1, 1), (0, 4), (2, 0), (2, 4)] {
        assert_eq!(
            Sequence::from_parsed_file(vec![rasters(), other(major, minor)]).err(),
            Some(Error::ParseError(ParseError::UnsupportedVersion(Version {
                major,
                minor,
                revision: 7,
                rev_suppl: Some("x".to_string()),
            })))
        );
    }
    // The number of version sections comes first.
    assert_eq!(
        Sequence::from_parsed_file(vec![other(1, 5), other(1, 5)]).err(),
        Some(Error::ConversionError(ConversionError::VersionSectionCount(2)))
    );
    assert_eq!(
        Sequence::from_parsed_file(vec![version(4), other(1, 5)]).err(),
        Some(Error::ConversionError(ConversionError::VersionSectionCount(2)))
    );
}

#[test]
fn later_dialects_must_give_their_rasters() {
    let later = Section::Version(Version { major: 1, minor: 5, revision: 0, rev_suppl: None });
    assert_eq!(
        from_raw(vec![later]).err(),
        Some(ConversionError::MissingDefinition(MissingDefinition::GradientRasterTime))
    );
    let later = Section::Version(Version { major: 2, minor: 0, revision: 0, rev_suppl: None });
    assert!(from_raw(vec![later, rasters()]).is_ok());
    let earlier = Section::Version(Version { major: 1, minor: 0, revision: 0, rev_suppl: None });
    assert!(from_raw(vec![earlier]).is_ok());
}

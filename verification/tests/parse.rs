use pulseq_rs::error::{
    ConversionError, Error, MissingDefinition, ParseError, ShapeDecompressionError,
};
use pulseq_rs::parse_file::{
    BlockDuration, ExtensionObject, ExtensionRef, ExtensionSpec, Extensions, Section, Signature,
    Version,
};
use pulseq_rs::{parse_file, Gradient, Sequence};

const NEW: &str = "# Pulseq sequence file
# Created by hand

[VERSION]
major 1
minor 4
revision 0

[DEFINITIONS]
AdcRasterTime 1e-07
BlockDurationRaster 1e-05
FOV 0.256 0.256 0.005
GradientRasterTime 1e-05
Name gre
RadiofrequencyRasterTime 1e-06

# Format of blocks:
# NUM DUR RF  GX  GY  GZ  ADC  EXT
[BLOCKS]
1 300   1   0   0   1   0  0
2 100   0   2   0   0   1  1

# Format of RF events:
# id amplitude mag_id phase_id time_shape_id delay freq phase
[RF]
1      159.155 1 2 3 100 0 1.5708 

[GRADIENTS]
2  -1.5e+06 1 3 20

[TRAP]
 1  1.1e+06 250 1000 250   0

[ADC]
1 64 10000 50 0 3.14159

[EXTENSIONS]
1 1 1 0

extension LABELSET 1
1 0 SLC
2 1 REP

[SHAPES]

shape_id 1
num_samples 4
0
1
1
0

shape_id 2
num_samples 4
0
0
2

Shape_ID 3
Num_Uncompressed 4
0
2
5
7

[SIGNATURE]
# This is the hash of the file
Type md5
Hash  46a3  9f
";

fn text(s: &str) -> String {
    s.to_string()
}

#[test]
fn new_file_is_read() {
    let sections = parse_file(NEW).unwrap();
    assert_eq!(sections.len(), 10);
    assert_eq!(
        sections[0],
        Section::Version(Version { major: 1, minor: 4, revision: 0, rev_suppl: None })
    );
    assert_eq!(
        sections[1],
        Section::Definitions(vec![
            (text("AdcRasterTime"), text("1e-07")),
            (text("BlockDurationRaster"), text("1e-05")),
            (text("FOV"), text("0.256 0.256 0.005")),
            (text("GradientRasterTime"), text("1e-05")),
            (text("Name"), text("gre")),
            (text("RadiofrequencyRasterTime"), text("1e-06")),
        ])
    );
    assert_eq!(
        sections[2],
        Section::Blocks(vec![
            parse_file::Block {
                id: 1,
                dur: BlockDuration::Duration(300),
                rf: 1,
                gx: 0,
                gy: 0,
                gz: 1,
                adc: 0,
                ext: 0,
            },
            parse_file::Block {
                id: 2,
                dur: BlockDuration::Duration(100),
                rf: 0,
                gx: 2,
                gy: 0,
                gz: 0,
                adc: 1,
                ext: 1,
            },
        ])
    );
    assert_eq!(
        sections[3],
        Section::Rfs(vec![parse_file::Rf {
            id: 1,
            amp: 159_155_000_000,
            mag_id: 1,
            phase_id: 2,
            time_id: 3,
            delay: 100_000,
            freq: 0,
            phase: 1_570_800_000,
        }])
    );
    assert_eq!(
        sections[4],
        Section::Gradients(vec![parse_file::Gradient {
            id: 2,
            amp: -1_500_000_000_000_000,
            shape_id: 1,
            time_id: 3,
            delay: 20_000,
        }])
    );
    assert_eq!(
        sections[5],
        Section::Traps(vec![parse_file::Trap {
            id: 1,
            amp: 1_100_000_000_000_000,
            rise: 250_000,
            flat: 1_000_000,
            fall: 250_000,
            delay: 0,
        }])
    );
    assert_eq!(
        sections[6],
        Section::Adcs(vec![parse_file::Adc {
            id: 1,
            num: 64,
            dwell: 10_000,
            delay: 50_000,
            freq: 0,
            phase: 3_141_590_000,
        }])
    );
    assert_eq!(
        sections[7],
        Section::Extensions(Extensions {
            refs: vec![ExtensionRef { id: 1, spec_id: 1, obj_id: 1, next: 0 }],
            specs: vec![ExtensionSpec {
                id: 1,
                name: text("LABELSET"),
                instances: vec![
                    ExtensionObject { id: 1, data: text("0 SLC") },
                    ExtensionObject { id: 2, data: text("1 REP") },
                ],
            }],
        })
    );
    let one = 1_000_000_000;
    assert_eq!(
        sections[8],
        Section::Shapes(vec![
            parse_file::Shape { id: 1, samples: vec![0, one, one, 0] },
            parse_file::Shape { id: 2, samples: vec![0; 4] },
            parse_file::Shape { id: 3, samples: vec![0, 2 * one, 5 * one, 7 * one] },
        ])
    );
    assert_eq!(
        sections[9],
        Section::Signature(Signature { typ: text("md5"), hash: text("46a3  9f") })
    );
}

#[test]
fn new_file_becomes_a_sequence() {
    let sequence = Sequence::from_source(NEW).unwrap();
    assert_eq!(sequence.name.as_deref(), Some("gre"));
    assert_eq!(sequence.fov, Some((256_000_000, 256_000_000, 5_000_000)));
    assert!(sequence.definitions.is_empty());
    assert_eq!(sequence.blocks.len(), 2);
    assert_eq!(sequence.blocks[0].duration, 3_000_000);
    let pulse = sequence.blocks[0].rf.as_ref().unwrap();
    assert_eq!(pulse.amp_shape.0.len(), 7);
    assert_eq!(pulse.duration(sequence.time_raster.rf), 107_000);
    match &**sequence.blocks[1].gx.as_ref().unwrap() {
        Gradient::Free { shape, delay, .. } => {
            assert_eq!(shape.0.len(), 7);
            assert_eq!(*delay, 20_000);
        }
        Gradient::Trap { .. } => panic!("an arbitrary gradient was declared"),
    }
    let window = sequence.blocks[1].adc.as_ref().unwrap();
    assert_eq!(window.duration(), 690_000);
}

const OLD: &str = "[VERSION]
major 1
minor 2
revision 1post4

[BLOCKS]
1 0 1 0 0 0 0
2 1 0 0 0 1 1
[RF]
1 100 1 1 50 0 0
[TRAP]
1 1000 100 300 100 0
[ADC]
1 10 1562.5 0 0 0
[DELAYS]
1 2500.5
[SHAPES]
shape_id 1
num_samples 10
1
0
0
7";

#[test]
fn old_file_is_read() {
    let sections = parse_file(OLD).unwrap();
    assert_eq!(sections.len(), 7);
    assert_eq!(
        sections[0],
        Section::Version(Version {
            major: 1,
            minor: 2,
            revision: 1,
            rev_suppl: Some(text("post4")),
        })
    );
    assert_eq!(
        sections[1],
        Section::Blocks(vec![
            parse_file::Block {
                id: 1,
                dur: BlockDuration::DelayId(0),
                rf: 1,
                gx: 0,
                gy: 0,
                gz: 0,
                adc: 0,
                ext: 0,
            },
            parse_file::Block {
                id: 2,
                dur: BlockDuration::DelayId(1),
                rf: 0,
                gx: 0,
                gy: 0,
                gz: 1,
                adc: 1,
                ext: 0,
            },
        ])
    );
    assert_eq!(
        sections[2],
        Section::Rfs(vec![parse_file::Rf {
            id: 1,
            amp: 100_000_000_000,
            mag_id: 1,
            phase_id: 1,
            time_id: 0,
            delay: 50_000,
            freq: 0,
            phase: 0,
        }])
    );
    // The dwell time of 1562.5 ns loses its half nanosecond.
    assert_eq!(
        sections[4],
        Section::Adcs(vec![parse_file::Adc {
            id: 1,
            num: 10,
            dwell: 1562,
            delay: 0,
            freq: 0,
            phase: 0,
        }])
    );
    assert_eq!(
        sections[5],
        Section::Delays(vec![parse_file::Delay { id: 1, delay: 2_500_500 }])
    );
    assert_eq!(
        sections[6],
        Section::Shapes(vec![parse_file::Shape { id: 1, samples: vec![1_000_000_000; 10] }])
    );
}

#[test]
fn old_file_becomes_a_sequence() {
    let sequence = Sequence::from_source(OLD).unwrap();
    assert_eq!(sequence.blocks[0].duration, 60_000);
    assert_eq!(sequence.blocks[1].duration, 2_500_500);
}

#[test]
fn carriage_returns_and_comments() {
    let source = "\r\n  \r\n# c\r\n[VERSION]   \r\n#the version\r\nmajor 1\t\r\nminor   3\r\n\
                  revision 0\r\n\r\n# end\r\n[DEFINITIONS]\r\nName  a b  \r\nScanner\t x # y\r\n";
    let sections = parse_file(source).unwrap();
    assert_eq!(
        sections,
        vec![
            Section::Version(Version { major: 1, minor: 3, revision: 0, rev_suppl: None }),
            Section::Definitions(vec![
                (text("Name"), text("a b")),
                (text("Scanner"), text("x # y")),
            ]),
        ]
    );
}

#[test]
fn comment_behind_a_gap_is_not_taken() {
    assert!(parse_file("[VERSION]# v\nmajor 1\nminor 3\nrevision 0\n").is_ok());
    assert!(parse_file("[VERSION] \nmajor 1#\nminor 3\n \n# c\n\nrevision 0\n").is_ok());
    assert_eq!(
        parse_file("[VERSION] # v\nmajor 1\nminor 3\nrevision 0\n"),
        Err(ParseError::Syntax)
    );
}

#[test]
fn sections_may_repeat_in_any_order() {
    let source = "[VERSION]\nmajor 1\nminor 4\nrevision 0\n[TRAP]\n1 1 1 1 1 1\n[ADC]\n\
                  [TRAP]\n2 1 1 1 1 1\n[VERSION]\nmajor 1\nminor 4\nrevision 0\n[BLOCKS]\n";
    let sections = parse_file(source).unwrap();
    assert_eq!(sections.len(), 6);
    assert!(matches!(sections[1], Section::Traps(ref t) if t.len() == 1 && t[0].id == 1));
    assert!(matches!(sections[2], Section::Adcs(ref a) if a.is_empty()));
    assert!(matches!(sections[3], Section::Traps(ref t) if t[0].id == 2));
    assert!(matches!(sections[4], Section::Version(_)));
    assert!(matches!(sections[5], Section::Blocks(ref b) if b.is_empty()));
    assert_eq!(
        Sequence::from_source(source).err(),
        Some(Error::ConversionError(ConversionError::VersionSectionCount(2)))
    );
}

#[test]
fn version_must_come_first() {
    assert_eq!(parse_file(""), Err(ParseError::Syntax));
    assert_eq!(parse_file("[BLOCKS]\n"), Err(ParseError::Syntax));
    assert_eq!(
        parse_file("[DEFINITIONS]\nName x\n[VERSION]\nmajor 1\nminor 4\nrevision 0\n"),
        Err(ParseError::Syntax)
    );
    assert_eq!(parse_file("[VERSION]\nmajor 1\nminor 4\n"), Err(ParseError::Syntax));
    assert_eq!(parse_file("[VERSION]\nmajor 1\nminor 04\nrevision 0\n"), Err(ParseError::Syntax));
}

#[test]
fn other_dialects_are_refused() {
    let source = "[VERSION]\nmajor 1\nminor 5\nrevision 2\n[ANYTHING]\n";
    assert_eq!(
        parse_file(source),
        Err(ParseError::UnsupportedVersion(Version {
            major: 1,
            minor: 5,
            revision: 2,
            rev_suppl: None,
        }))
    );
    let source = "[VERSION]\nmajor 2\nminor 4\nrevision 0rc1\n";
    assert_eq!(
        parse_file(source),
        Err(ParseError::UnsupportedVersion(Version {
            major: 2,
            minor: 4,
            revision: 0,
            rev_suppl: Some(text("rc1")),
        }))
    );
}

fn versioned(minor: u32, rest: &str) -> String {
    format!("[VERSION]\nmajor 1\nminor {minor}\nrevision 0\n{rest}")
}

#[test]
fn what_does_not_follow_the_grammar() {
    for rest in [
        "[BLOCKS]\n1 2 3\n",
        "[BLOCKS]\n1 0 0 0 0 0 0 0 0\n",
        "[BLOCKS]\n1 0 0 0 0 0 0 -1\n",
        "[BLOCKS]\n1 0 0 0 0 0 0 4294967296\n",
        "[RF]\n1 1.0 1 2 3 0 0\n",
        "[RF]\n1 1. 1 2 3 0 0 0\n",
        "[RF]\n1 .5 1 2 3 0 0 0\n",
        "[RF]\n1 +5 1 2 3 0 0 0\n",
        "[RF]\n1 5 1 2 3 0 0 0 7\n",
        "[RF]\n1 1e10 1 2 3 0 0 0\n",
        "[TRAP]\n1 1 1 1 1 1.5\n",
        "[DELAYS]\n1 5\n",
        "[UNKNOWN]\n",
        "[BLOCKS]\n1 0 0 0 0 0 0 0 trailing\n",
        "stray\n",
        "[DEFINITIONS]\nNum_Blocks 5\n",
        "[EXTENSIONS]\n1 1 1 0\n",
        "[EXTENSIONS]\nextension L 1\n1 x\n",
        "[SIGNATURE]\nType md5\nHash \n",
        "[SHAPES]\nshape_id 1\n",
    ] {
        assert_eq!(parse_file(&versioned(4, rest)), Err(ParseError::Syntax), "{}", rest);
    }
    assert!(parse_file(&versioned(4, "[BLOCKS]\n1 0 0 0 0 0 0 4294967295\n")).is_ok());
    assert!(parse_file(&versioned(4, "[RF]\n1 5 1 2 3 0 0 0 7 8\n")).is_ok());
}

#[test]
fn dialects_differ() {
    let seven = "[BLOCKS]\n1 0 0 0 0 0 0\n";
    assert!(parse_file(&versioned(2, seven)).is_ok());
    assert_eq!(parse_file(&versioned(3, seven)), Err(ParseError::Syntax));
    assert_eq!(parse_file(&versioned(4, seven)), Err(ParseError::Syntax));
    // The second dialect takes no section of blocks, pulses or gradients
    // that is empty.
    for empty in ["[BLOCKS]\n", "[RF]\n", "[GRADIENTS]\n"] {
        assert!(parse_file(&versioned(2, empty)).is_ok());
        assert_eq!(parse_file(&versioned(3, empty)), Err(ParseError::Syntax));
        assert!(parse_file(&versioned(4, empty)).is_ok());
    }
    let delays = "[DELAYS]\n1 5.5\n";
    assert!(parse_file(&versioned(2, delays)).is_ok());
    assert!(parse_file(&versioned(3, delays)).is_ok());
    assert_eq!(parse_file(&versioned(4, delays)), Err(ParseError::Syntax));
    let signature = "[SIGNATURE]\nType md5\nHash 0f\n";
    assert_eq!(parse_file(&versioned(2, signature)), Err(ParseError::Syntax));
    assert_eq!(parse_file(&versioned(3, signature)), Err(ParseError::Syntax));
    assert!(parse_file(&versioned(4, signature)).is_ok());
    let extensions = "[EXTENSIONS]\n1 1 1 0\nextension L 1\n1 x\n";
    assert_eq!(parse_file(&versioned(2, extensions)), Err(ParseError::Syntax));
    assert!(parse_file(&versioned(3, extensions)).is_ok());
    assert!(parse_file(&versioned(4, extensions)).is_ok());
    let old_gradient = "[GRADIENTS]\n1 5 1 0\n";
    assert!(parse_file(&versioned(3, old_gradient)).is_ok());
    assert_eq!(parse_file(&versioned(4, old_gradient)), Err(ParseError::Syntax));
}

#[test]
fn shape_that_cannot_be_decompressed() {
    let source = versioned(4, "[SHAPES]\nshape_id 1\nnum_samples 5\n1\n1\n0.5\n");
    assert_eq!(
        parse_file(&source),
        Err(ParseError::ShapeDecompressionError(
            ShapeDecompressionError::RleCountIsNotInteger { index: 2, value: 500_000_000 }
        ))
    );
    let source = versioned(3, "[SHAPES]\nshape_id 1\nnum_samples 5\n1\n1\n1\n\n[JUNK");
    assert_eq!(
        Sequence::from_source(&source).err(),
        Some(Error::ParseError(ParseError::ShapeDecompressionError(
            ShapeDecompressionError::WrongDecompressedCount { count: 3, expected: 5 }
        )))
    );
}

#[test]
fn new_file_without_adc_raster_time() {
    let source = versioned(
        4,
        "[DEFINITIONS]\nGradientRasterTime 1e-05\nRadiofrequencyRasterTime 1e-06\n\
         BlockDurationRaster 1e-05\n[BLOCKS]\n1 10 0 0 0 0 0 0\n",
    );
    assert_eq!(
        Sequence::from_source(&source).err(),
        Some(Error::ConversionError(ConversionError::MissingDefinition(
            MissingDefinition::AdcRasterTime
        )))
    );
}

#[test]
fn file_without_a_last_line_feed() {
    assert!(parse_file("[VERSION]\nmajor 1\nminor 4\nrevision 0").is_ok());
    assert!(parse_file("[VERSION]\nmajor 1\nminor 4\nrevision 0\n# the end").is_ok());
    assert!(parse_file("[VERSION]\nmajor 1\nminor 4\nrevision 0\n   ").is_ok());
    assert_eq!(
        parse_file("[VERSION]\nmajor 1\nminor 4\nrevision 0   "),
        Err(ParseError::Syntax)
    );
}

use pulseq_rs::parse_file::scan::{float, ident, integer, nl, tag_nl, tag_ws, ws, Input};
use pulseq_rs::parse_file::numeric::{adcs, blocks, delays, traps};
use pulseq_rs::parse_file::texts::{definitions, version};
use pulseq_rs::parse_file::{Dialect, Section};
use pulseq_rs::error::ParseError;

fn chars(s: &str) -> Vec<char> {
    s.chars().collect()
}

#[test]
fn gaps() {
    let text = chars("a \t b");
    assert_eq!(ws(&text, 1), Some(4));
    assert_eq!(ws(&text, 2), Some(4));
    assert_eq!(ws(&text, 0), None);
    assert_eq!(ws(&text, 4), None);
    assert_eq!(ws(&text, 5), None);
    assert_eq!(ws(&text, 50), None);
    assert_eq!(ws(&chars("x\u{a0}y"), 1), None);
}

#[test]
fn ends_of_lines() {
    let text = chars("a  \n\n # c\n  b");
    // A comment behind a gap is not taken: the gap is taken for itself.
    assert_eq!(nl(&text, 1), Some(6));
    assert_eq!(nl(&text, 3), Some(6));
    assert_eq!(nl(&text, 4), Some(6));
    assert_eq!(nl(&text, 6), Some(12));
    assert_eq!(nl(&text, 0), None);
    assert_eq!(nl(&text, 12), None);
    assert_eq!(nl(&text, 13), Some(13));
    assert_eq!(nl(&text, 99), Some(99));
    assert_eq!(nl(&chars("a\r\nb"), 1), Some(3));
    assert_eq!(nl(&chars("a\rb"), 1), None);
    assert_eq!(nl(&chars("a# c"), 1), None);
    assert_eq!(nl(&chars("a# c\n"), 1), Some(5));
    assert_eq!(nl(&chars("a\n# c"), 1), Some(5));
}

#[test]
fn words_and_names() {
    let text = chars("major 12abc_d");
    assert_eq!(tag_ws(&text, 0, "major"), Some(6));
    assert_eq!(tag_ws(&text, 0, "maj"), None);
    assert_eq!(tag_ws(&text, 0, "minor"), None);
    assert_eq!(tag_ws(&text, 6, "12abc_d"), None);
    assert_eq!(tag_nl(&text, 6, "12abc_d"), Some(13));
    assert_eq!(tag_nl(&text, 6, "12abc_dx"), None);
    assert_eq!(tag_nl(&text, 20, ""), None);
    assert_eq!(ident(&text, 6), Some(11));
    assert_eq!(ident(&text, 11), None);
    assert_eq!(ident(&text, 12), Some(13));
    assert_eq!(ident(&text, 13), None);
    assert_eq!(ident(&chars("\u{e9}t\u{e9}"), 0), None);
}

#[test]
fn whole_numbers() {
    assert_eq!(integer(&chars("120 "), 0), Some((120, 3)));
    assert_eq!(integer(&chars("0"), 0), Some((0, 1)));
    assert_eq!(integer(&chars("012"), 0), Some((0, 1)));
    assert_eq!(integer(&chars("4294967295"), 0), Some((u32::MAX, 10)));
    assert_eq!(integer(&chars("4294967296"), 0), None);
    assert_eq!(integer(&chars("99999999999999999999999999999999999999999999"), 0), None);
    assert_eq!(integer(&chars("-1"), 0), None);
    assert_eq!(integer(&chars(""), 0), None);
    assert_eq!(integer(&chars("7"), 3), None);
}

#[test]
fn decimal_numbers() {
    assert_eq!(float(&chars("1.5e-3 "), 0, 9), Some((1_500_000, 6)));
    assert_eq!(float(&chars("-0.25"), 0, 9), Some((-250_000_000, 5)));
    assert_eq!(float(&chars("1."), 0, 9), Some((1_000_000_000, 1)));
    assert_eq!(float(&chars("1e"), 0, 9), Some((1_000_000_000, 1)));
    assert_eq!(float(&chars("1e+"), 0, 9), Some((1_000_000_000, 1)));
    assert_eq!(float(&chars("1.e5"), 0, 9), Some((1_000_000_000, 1)));
    assert_eq!(float(&chars("01"), 0, 9), Some((0, 1)));
    assert_eq!(float(&chars("2E2"), 0, 0), Some((200, 3)));
    assert_eq!(float(&chars("2500.5"), 0, 3), Some((2_500_500, 6)));
    assert_eq!(float(&chars(".5"), 0, 9), None);
    assert_eq!(float(&chars("+5"), 0, 9), None);
    assert_eq!(float(&chars("-"), 0, 9), None);
    assert_eq!(float(&chars("1e10"), 0, 9), None);
    assert_eq!(float(&chars("1e10"), 0, 0), Some((10_000_000_000, 4)));
    assert_eq!(float(&chars("x 3"), 2, 9), Some((3_000_000_000, 3)));
    assert_eq!(float(&chars("3"), 2, 9), None);
}

#[test]
fn sections_one_by_one() {
    let source = "[TRAP]\n1 2.5 3 4 5 6\n 2 -1 0 0 0 0 # c\n[ADC]\n";
    let input = Input::new(source);
    assert_eq!(input.chars().len(), source.len());
    // The second line ends in a comment behind a gap, which ends the section.
    let (section, end) = traps(&input, 0).unwrap();
    assert_eq!(end, 22);
    match section {
        Section::Traps(records) => {
            assert_eq!(records.len(), 1);
            assert_eq!(records[0].amp, 2_500_000_000);
            assert_eq!(records[0].rise, 3_000);
            assert_eq!(records[0].delay, 6_000);
        }
        _ => panic!("a section of trapezoids was read"),
    }
    assert!(traps(&input, 1).is_none());
    assert!(adcs(&input, 0).is_none());
    assert!(blocks(&input, 0, Dialect::V14).is_none());
    assert!(delays(&input, 0).is_none());
    assert!(version(&input, 0).is_none());
    assert!(definitions(&input, 0).is_none());
    assert!(traps(&input, 1000).is_none());
    let input = Input::new("[TRAP]\n1 2.5 3 4 5 6\n 2 -1 0 0 0 0\n[ADC]\n");
    match traps(&input, 0) {
        Some((Section::Traps(records), end)) => {
            assert_eq!(records.len(), 2);
            assert_eq!(records[1].amp, -1_000_000_000);
            assert_eq!(end, 35);
        }
        _ => panic!("a section of trapezoids was read"),
    }
    assert!(matches!(adcs(&input, 35), Some((Section::Adcs(_), 41))));
}

#[test]
fn file_of_a_given_dialect() {
    let source = "\n[DELAYS]\n1 5\n[BLOCKS]\n1 1 0 0 0 0 0\n";
    assert!(matches!(pulseq_rs::parse_file::file::file(source, Dialect::V12), Ok(sections) if sections.len() == 2));
    assert_eq!(pulseq_rs::parse_file::file::file(source, Dialect::V13), Err(ParseError::Syntax));
    assert_eq!(pulseq_rs::parse_file::file::file(source, Dialect::V14), Err(ParseError::Syntax));
    assert_eq!(pulseq_rs::parse_file::file::file("", Dialect::V14), Ok(vec![]));
    assert_eq!(pulseq_rs::parse_file::file::file("# nothing\n\n", Dialect::V12), Ok(vec![]));
}

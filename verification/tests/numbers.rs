use pulseq_rs::error::{ParseFloatError, ParseFovError};
use pulseq_rs::number::{chars_of, parse_number, parse_scaled};
use pulseq_rs::sequence::definitions::{parse_fov, split_words};

#[test]
fn raster_times_are_read_exactly() {
    assert_eq!(parse_number("1e-05"), Ok(10_000));
    assert_eq!(parse_number("10e-6"), Ok(10_000));
    assert_eq!(parse_number("1e-6"), Ok(1_000));
    assert_eq!(parse_number("0.1e-6"), Ok(100));
    assert_eq!(parse_number("1e-07"), Ok(100));
}

#[test]
fn plain_numerals() {
    assert_eq!(parse_number("0"), Ok(0));
    assert_eq!(parse_number("12"), Ok(12_000_000_000));
    assert_eq!(parse_number("-2.5"), Ok(-2_500_000_000));
    assert_eq!(parse_number("+3"), Ok(3_000_000_000));
    assert_eq!(parse_number(".5"), Ok(500_000_000));
    assert_eq!(parse_number("5."), Ok(5_000_000_000));
    assert_eq!(parse_number("3.25E2"), Ok(325_000_000_000));
    assert_eq!(parse_number("1.5e+1"), Ok(15_000_000_000));
    assert_eq!(parse_number("-0"), Ok(0));
    assert_eq!(parse_number("007"), Ok(7_000_000_000));
}

#[test]
fn places_behind_the_ninth_are_dropped() {
    assert_eq!(parse_number("0.0000000019"), Ok(1));
    assert_eq!(parse_number("-0.0000000019"), Ok(-1));
    assert_eq!(parse_number("1e-10"), Ok(0));
    assert_eq!(parse_number("0.123456789987"), Ok(123_456_789));
    assert_eq!(parse_number("1e-400"), Ok(0));
    assert_eq!(parse_number("123e-99999999999999999999999999999"), Ok(0));
}

#[test]
fn empty_text_is_no_numeral() {
    assert_eq!(parse_number(""), Err(ParseFloatError::Empty));
}

#[test]
fn ill_formed_numerals() {
    for text in [
        "abc", ".", "-", "+", "e5", "1e", "1e+", "1.5.2", " 1", "1 ", "1,5", "inf", "nan",
        "infinity", "0x10", "--1", "1e5.0", "\u{661}",
    ] {
        assert_eq!(parse_number(text), Err(ParseFloatError::Invalid), "{}", text);
    }
}

#[test]
fn numerals_beyond_the_range() {
    assert_eq!(parse_number("9223372036.854775807"), Ok(i64::MAX));
    assert_eq!(parse_number("-9223372036.854775807"), Ok(-i64::MAX));
    assert_eq!(parse_number("9223372036.854775808"), Err(ParseFloatError::Invalid));
    assert_eq!(parse_number("1e10"), Err(ParseFloatError::Invalid));
    assert_eq!(parse_number("1e400"), Err(ParseFloatError::Invalid));
    assert_eq!(parse_number("1e99999999999999999999999999999"), Err(ParseFloatError::Invalid));
    assert_eq!(parse_number("0e99999999999999999999999999999"), Ok(0));
    assert_eq!(parse_number("0.000e400"), Ok(0));
}

#[test]
fn long_numerals() {
    let mut text = String::from("0.");
    for _ in 0..40 {
        text.push('0');
    }
    text.push_str("25e41");
    assert_eq!(parse_number(&text), Ok(2_500_000_000));
    let mut text = String::from("1");
    for _ in 0..30 {
        text.push('0');
    }
    text.push_str("e-30");
    assert_eq!(parse_number(&text), Ok(1_000_000_000));
}

#[test]
fn other_scales() {
    assert_eq!(parse_scaled(&chars_of("1000"), 0), Ok(1000));
    assert_eq!(parse_scaled(&chars_of("1562.5"), 0), Ok(1562));
    assert_eq!(parse_scaled(&chars_of("2.5"), 3), Ok(2500));
    assert_eq!(parse_scaled(&chars_of("-2.5e3"), 3), Ok(-2_500_000));
}

#[test]
fn words_are_split_at_blanks() {
    let text = chars_of("  ab\tc \u{a0} def ");
    assert_eq!(split_words(&text), vec![(2, 4), (5, 6), (9, 12)]);
    assert_eq!(split_words(&chars_of("")), vec![]);
    assert_eq!(split_words(&chars_of(" \n ")), vec![]);
    assert_eq!(split_words(&chars_of("x")), vec![(0, 1)]);
}

#[test]
fn field_of_view_is_three_numbers() {
    assert_eq!(
        parse_fov("0.256 0.256 0.005"),
        Ok((256_000_000, 256_000_000, 5_000_000))
    );
    assert_eq!(parse_fov("  1\t2   3 "), Ok((1_000_000_000, 2_000_000_000, 3_000_000_000)));
}

#[test]
fn field_of_view_with_another_count() {
    assert_eq!(parse_fov("1 2"), Err(ParseFovError::WrongValueCount(2)));
    assert_eq!(parse_fov(""), Err(ParseFovError::WrongValueCount(0)));
    assert_eq!(parse_fov("1 2 3 4"), Err(ParseFovError::WrongValueCount(4)));
}

#[test]
fn field_of_view_with_a_word_that_is_no_number() {
    assert_eq!(
        parse_fov("1 x 3"),
        Err(ParseFovError::ParseFloat(ParseFloatError::Invalid))
    );
    assert_eq!(
        parse_fov("1 2 3e"),
        Err(ParseFovError::ParseFloat(ParseFloatError::Invalid))
    );
}

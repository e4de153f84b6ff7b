use rusty_runner::{parse_duration, parse_size, parse_suffixed_num, UnitError};

const HOUR_NS: u128 = 3_600_000_000_000;

#[test]
fn durations() {
    assert_eq!(parse_duration("1.5d"), Ok(36 * HOUR_NS));
    assert_eq!(parse_duration("2h"), Ok(2 * HOUR_NS));
    assert_eq!(parse_duration("1W"), Ok(168 * HOUR_NS));
    assert_eq!(parse_duration(" 3 H"), Ok(3 * HOUR_NS));
    assert_eq!(parse_duration(".5h"), Ok(HOUR_NS / 2));
    assert_eq!(parse_duration("5.h"), Ok(5 * HOUR_NS));
    assert_eq!(parse_duration("+1d"), Ok(24 * HOUR_NS));
    assert_eq!(parse_duration("-0d"), Ok(0));
}

#[test]
fn duration_errors() {
    assert_eq!(parse_duration("1.5"), Err(UnitError::InvalidUnit));
    assert_eq!(parse_duration("3m"), Err(UnitError::InvalidUnit));
    assert_eq!(parse_duration("-1d"), Err(UnitError::Negative));
    assert_eq!(parse_duration("d"), Err(UnitError::InvalidNumber));
    assert_eq!(parse_duration("1.2.3d"), Err(UnitError::InvalidNumber));
    assert_eq!(parse_duration("1 2d"), Err(UnitError::InvalidNumber));
    assert_eq!(parse_duration("."), Err(UnitError::InvalidNumber));
    assert_eq!(parse_duration("1e3h"), Err(UnitError::InvalidUnit));
    assert_eq!(
        parse_duration("1000000000000000000000000000000000000000000h"),
        Err(UnitError::TooLarge)
    );
}

#[test]
fn sizes() {
    assert_eq!(parse_size("2.5G"), Ok(2_684_354_560));
    assert_eq!(parse_size("2.5GB"), Ok(2_684_354_560));
    assert_eq!(parse_size("1M"), Ok(1_048_576));
    assert_eq!(parse_size("1mb"), Ok(1_048_576));
    assert_eq!(parse_size("1T"), Ok(1_099_511_627_776));
    assert_eq!(parse_size("0.0000005M"), Ok(1));
    assert_eq!(parse_size("0.0000004M"), Ok(0));
}

#[test]
fn size_errors() {
    assert_eq!(parse_size("1K"), Err(UnitError::InvalidUnit));
    assert_eq!(parse_size("1GiB"), Err(UnitError::InvalidUnit));
    assert_eq!(parse_size("-2G"), Err(UnitError::Negative));
    assert_eq!(parse_size("abc"), Err(UnitError::InvalidNumber));
    assert_eq!(parse_size("20000000T"), Err(UnitError::TooLarge));
}

#[test]
fn number_and_unit_are_split() {
    let n = parse_suffixed_num("1.25 gB").unwrap();
    assert!(!n.negative);
    assert_eq!(n.mantissa, 125);
    assert_eq!(n.scale, 2);
    assert_eq!(n.unit, vec!['g', 'B']);
    let n = parse_suffixed_num("d-7").unwrap();
    assert!(n.negative);
    assert_eq!(n.mantissa, 7);
    assert_eq!(n.unit, vec!['d']);
    assert!(matches!(parse_suffixed_num(""), Err(UnitError::InvalidNumber)));
}

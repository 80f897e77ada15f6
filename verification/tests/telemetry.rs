use sepic_control::errors::ParseError;
use sepic_control::measurement::Measurement;
use sepic_control::value_text::check_float_literal;

#[test]
fn measurement_parses_timestamped_value() {
    let m = Measurement::from_str("2024-01-01T00:00:00+00:00 12.5").unwrap();
    assert_eq!(m.timestamp_micros, 1_704_067_200_000_000);
    assert_eq!(m.value, "12.5");
    assert_eq!(m.value.parse::<f64>().unwrap(), 12.5);
}

#[test]
fn measurement_space_separator_is_accepted_in_timestamp_form() {
    // chrono accepts a space between date and time; the split still happens
    // at the line's first space, so this timestamp half alone cannot parse.
    assert_eq!(
        Measurement::from_str("2024-01-01 00:00:00+00:00 12.5"),
        Err(ParseError::InvalidTimestamp)
    );
}

#[test]
fn measurement_missing_space_fails() {
    assert_eq!(
        Measurement::from_str("2024-01-01T00:00:00+00:00"),
        Err(ParseError::MissingSeparator)
    );
    assert_eq!(Measurement::from_str(""), Err(ParseError::MissingSeparator));
}

#[test]
fn measurement_non_numeric_value_fails() {
    assert_eq!(
        Measurement::from_str("2024-01-01T00:00:00+00:00 twelve"),
        Err(ParseError::InvalidValue)
    );
    assert_eq!(
        Measurement::from_str("2024-01-01T00:00:00+00:00 1.2.3"),
        Err(ParseError::InvalidValue)
    );
}

#[test]
fn measurement_trailing_nul_in_value_fails() {
    assert_eq!(
        Measurement::from_str("2024-01-01T00:00:00+00:00 12.5\0\0"),
        Err(ParseError::InvalidValue)
    );
}

#[test]
fn measurement_bad_timestamp_fails() {
    assert_eq!(
        Measurement::from_str("not-a-date 12.5"),
        Err(ParseError::InvalidTimestamp)
    );
    // Without an offset the date-time is ambiguous and must be rejected.
    assert_eq!(
        Measurement::from_str("2024-01-01T00:00:00 12.5"),
        Err(ParseError::InvalidTimestamp)
    );
}

#[test]
fn measurement_offset_shifts_instant() {
    let utc = Measurement::from_str("2024-01-01T01:00:00+00:00 1").unwrap();
    let plus_one = Measurement::from_str("2024-01-01T01:00:00+01:00 1").unwrap();
    assert_eq!(utc.timestamp_micros - plus_one.timestamp_micros, 3_600_000_000);
}

#[test]
fn float_grammar_agrees_with_float_parser() {
    let samples = [
        "", ".", "+", "-", "1", "-1", "+1", "1.", ".5", "-.5", "1.5", "1.5e3", "1.5E-3",
        "1e3", "1e", "1e+", "1e+3", ".e3", "1.e3", "inf", "INF", "-inf", "infinity",
        "Infinity", "nan", "NaN", "-NaN", "infinit", "infinityy", "nanx", "0x10", " 1",
        "1 ", "1_000", "12.5\0", "1e999", "e3", "--1", "++1", "1..2", "5.", "5.e2",
    ];
    for s in samples {
        assert_eq!(
            check_float_literal(s),
            s.parse::<f64>().is_ok(),
            "disagreement on {s:?}"
        );
    }
}

#[test]
fn float_grammar_accepts_huge_exponents() {
    // f64 parsing never fails on range, only on shape.
    assert!(check_float_literal("1e999"));
    assert!("1e999".parse::<f64>().unwrap().is_infinite());
}

use gtfs_extract::clock::{GtfsLexingError, GtfsTime, GtfsTimeToken};
use gtfs_extract::types::{IntErrorKind, ParseIntError};

#[test]
fn test_gtfs_time_lexer_unknown_token() {
    let mut lex = GtfsTimeToken::lexer("48:60:FF");

    let next = lex.next();
    assert_eq!(next, Some(Ok(GtfsTimeToken::Integer(48))));
    assert_eq!(lex.span(), 0..2);
    assert_eq!(lex.slice(), "48");

    let next = lex.next();
    assert_eq!(next, Some(Ok(GtfsTimeToken::Integer(60))));
    assert_eq!(lex.span(), 3..5);
    assert_eq!(lex.slice(), "60");

    for i in 0..2 {
        let next = lex.next();
        assert_eq!(next, Some(Err(GtfsLexingError::UnknownToken)));
        assert_eq!(lex.span(), (6 + i)..(7 + i));
        assert_eq!(lex.slice(), "F");
    }

    assert_eq!(lex.next(), None);
}

#[test]
fn test_gtfs_time_lexer_overflow() {
    let mut lex = GtfsTimeToken::lexer("2147483648");

    let next = lex.next();
    assert!(matches!(next, Some(Err(GtfsLexingError::ParseInt(ref err))) if err.kind() == &IntErrorKind::PosOverflow));
    assert_eq!(lex.span(), 0..10);
    assert_eq!(lex.slice(), "2147483648");

    assert_eq!(lex.next(), None);
}

fn overflow() -> GtfsLexingError {
    GtfsLexingError::ParseInt(ParseIntError { kind: IntErrorKind::PosOverflow })
}

#[test]
fn parse_reads_hours_minutes_seconds() {
    assert_eq!(GtfsTime::from_str("1:02:03"), Ok(GtfsTime(3723)));
    assert_eq!(GtfsTime::from_str("25:30:00"), Ok(GtfsTime(91800)));
    assert_eq!(GtfsTime::from_str("00:00:00"), Ok(GtfsTime(0)));
}

#[test]
fn parse_does_not_range_check_minutes_and_seconds() {
    assert_eq!(GtfsTime::from_str("0:75:80"), Ok(GtfsTime(4580)));
}

#[test]
fn format_pads_minutes_and_seconds() {
    assert_eq!(GtfsTime::from_str("1:02:03").unwrap().to_string(), "01:02:03");
    assert_eq!(GtfsTime(0).to_string(), "00:00:00");
    assert_eq!(GtfsTime(4580).to_string(), "01:16:20");
}

#[test]
fn format_keeps_every_hour_digit() {
    assert_eq!(GtfsTime::from_str("120:00:00").unwrap().to_string(), "120:00:00");
    assert_eq!(GtfsTime(3600 * 1000 + 61).to_string(), "1000:01:01");
}

#[test]
fn round_trip_keeps_the_value() {
    for s in ["1:02:03", "0:75:80", "120:00:00", "23:59:59", "2147483647:0:0"] {
        let first = GtfsTime::from_str(s);
        let again = GtfsTime::from_str(&first.unwrap().to_string());
        assert_eq!(again, first);
    }
}

#[test]
fn missing_fields_are_reported() {
    assert_eq!(GtfsTime::from_str(""), Err(GtfsLexingError::MissingHours));
    assert_eq!(GtfsTime::from_str(":::"), Err(GtfsLexingError::MissingHours));
    assert_eq!(GtfsTime::from_str("12"), Err(GtfsLexingError::MissingMinutes));
    assert_eq!(GtfsTime::from_str("12:30"), Err(GtfsLexingError::MissingSeconds));
}

#[test]
fn unknown_tokens_are_reported() {
    assert_eq!(GtfsTime::from_str("12:30:aa"), Err(GtfsLexingError::UnknownToken));
    assert_eq!(GtfsTime::from_str("12:30:00:00"), Err(GtfsLexingError::UnknownToken));
    assert_eq!(GtfsTime::from_str("12:30:00x"), Err(GtfsLexingError::UnknownToken));
    assert_eq!(GtfsTime::from_str("-1:00:00"), Err(GtfsLexingError::UnknownToken));
}

#[test]
fn overflowing_fields_are_reported() {
    assert_eq!(GtfsTime::from_str("2147483648:00:00"), Err(overflow()));
    assert_eq!(GtfsTime::from_str("1:99999999999999999999:00"), Err(overflow()));
    assert_eq!(GtfsTime::from_str("1:0:4294967296"), Err(overflow()));
    assert_eq!(GtfsTime::from_str("2147483647:0:0"), Ok(GtfsTime(2147483647 * 3600)));
}

#[test]
fn lexer_skips_separators_and_reaches_the_end() {
    let mut lex = GtfsTimeToken::lexer("::7");
    assert_eq!(lex.next(), Some(Ok(GtfsTimeToken::Integer(7))));
    assert_eq!(lex.span(), 2..3);
    assert_eq!(lex.next(), None);
}

#[test]
fn default_error_is_unknown_token() {
    assert_eq!(GtfsLexingError::default(), GtfsLexingError::UnknownToken);
}

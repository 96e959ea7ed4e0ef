use gtfs_extract::types::{GtfsColourCode, GtfsID, IntErrorKind, ParseIntError};

#[test]
fn colour_code_parses_hexadecimal() {
    assert_eq!(GtfsColourCode::from_str("FFFFFF"), Ok(GtfsColourCode(0xFFFFFF)));
    assert_eq!(GtfsColourCode::from_str("00ff7f"), Ok(GtfsColourCode(0x00FF7F)));
    assert_eq!(GtfsColourCode::from_str("+ff"), Ok(GtfsColourCode(255)));
    assert_eq!(GtfsColourCode::from_str("DEADBEEF"), Ok(GtfsColourCode(0xDEADBEEF)));
}

#[test]
fn colour_code_errors() {
    let err = |kind| Err(ParseIntError { kind });
    assert_eq!(GtfsColourCode::from_str(""), err(IntErrorKind::Empty));
    assert_eq!(GtfsColourCode::from_str("+"), err(IntErrorKind::InvalidDigit));
    assert_eq!(GtfsColourCode::from_str("G1"), err(IntErrorKind::InvalidDigit));
    assert_eq!(GtfsColourCode::from_str("-1"), err(IntErrorKind::InvalidDigit));
    assert_eq!(GtfsColourCode::from_str("100000000"), err(IntErrorKind::PosOverflow));
}

#[test]
fn colour_code_formats_upper_case() {
    assert_eq!(GtfsColourCode(0xDEADBEEF).to_string(), "DEADBEEF");
    assert_eq!(GtfsColourCode(0).to_string(), "0");
    assert_eq!(GtfsColourCode(0x0A0B).to_string(), "A0B");
}

#[test]
fn colour_code_conversions() {
    assert_eq!(GtfsColourCode::from_i64(-1), None);
    assert_eq!(GtfsColourCode::from_i64(4294967295), Some(GtfsColourCode(u32::MAX)));
    assert_eq!(GtfsColourCode::from_u64(4294967296), None);
    assert_eq!(GtfsColourCode::from_u64(7), Some(GtfsColourCode(7)));
    assert_eq!(GtfsColourCode(9).to_i64(), Some(9));
    assert_eq!(GtfsColourCode(9).to_u64(), Some(9));
    assert_eq!(GtfsColourCode(9).to_u32(), 9);
}

#[test]
fn id_shows_its_text() {
    let id = GtfsID("2000421".to_string());
    assert_eq!(id.as_ref(), "2000421");
    assert_eq!(id.to_string(), "2000421");
}

use gtfs_extract::schedule::{
    GTFSAgency, GtfsContinuousPickupDropOff, GtfsPickupDropOffType, GtfsStopLocationType, GtfsTimeAccuracy,
    GtfsWheelchairBoarding,
};

#[test]
fn codes_read_back() {
    for c in 0..5u8 {
        assert_eq!(GtfsStopLocationType::from_code(c).unwrap().code(), c);
    }
    assert_eq!(GtfsStopLocationType::from_code(5), None);
    assert_eq!(GtfsStopLocationType::from_code(4), Some(GtfsStopLocationType::BoardingArea));
    assert_eq!(GtfsWheelchairBoarding::from_code(1), Some(GtfsWheelchairBoarding::Possible));
    assert_eq!(GtfsWheelchairBoarding::from_code(2), Some(GtfsWheelchairBoarding::NotPossible));
    assert_eq!(GtfsWheelchairBoarding::from_code(3), None);
    assert_eq!(GtfsPickupDropOffType::MustCoordinate.code(), 3);
    assert_eq!(GtfsContinuousPickupDropOff::from_code(0), Some(GtfsContinuousPickupDropOff::Continuous));
    assert_eq!(GtfsTimeAccuracy::from_code(0), Some(GtfsTimeAccuracy::Approximate));
}

#[test]
fn time_accuracy_defaults_to_exact() {
    assert_eq!(GtfsTimeAccuracy::default(), GtfsTimeAccuracy::Exact);
    assert_eq!(GtfsTimeAccuracy::default().code(), 1);
}

#[test]
fn agency_keeps_its_id() {
    assert_eq!(GTFSAgency::new("SydneyTrains".to_string()).agency_id(), "SydneyTrains");
}

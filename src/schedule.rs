//! Record schemas of the GTFS schedule tables.
use vstd::prelude::*;

verus! {

/// An agency record.
#[derive(Debug, Clone)]
pub struct GTFSAgency {
    agency_id: String,
}

impl GTFSAgency {
    pub fn new(agency_id: String) -> (r: GTFSAgency)
        ensures
            r.id() == agency_id@,
    {
        GTFSAgency { agency_id }
    }

    pub closed spec fn id(&self) -> Seq<char> {
        self.agency_id@
    }

    pub fn agency_id(&self) -> (r: &str)
        ensures
            r@ == self.id(),
    {
        self.agency_id.as_str()
    }
}

/// The kind of location a stop record describes. Written in the tables as its code, the variant's position.
#[derive(Debug, Clone, Copy, PartialEq, Eq, Structural)]
pub enum GtfsStopLocationType {
    /// A stop or platform.
    Stop,
    /// A station holding stops.
    Station,
    /// An entrance or exit of a station.
    Entrance,
    /// A node of a station's pathways.
    GenericNode,
    /// A place on a platform where riders board.
    BoardingArea,
}

impl GtfsStopLocationType {
    pub open spec fn spec_code(&self) -> u8 {
        match self {
            GtfsStopLocationType::Stop => 0,
            GtfsStopLocationType::Station => 1,
            GtfsStopLocationType::Entrance => 2,
            GtfsStopLocationType::GenericNode => 3,
            GtfsStopLocationType::BoardingArea => 4,
        }
    }

    /// The code written in the tables.
    pub fn code(&self) -> (r: u8)
        ensures
            r == self.spec_code(),
    {
        match self {
            GtfsStopLocationType::Stop => 0,
            GtfsStopLocationType::Station => 1,
            GtfsStopLocationType::Entrance => 2,
            GtfsStopLocationType::GenericNode => 3,
            GtfsStopLocationType::BoardingArea => 4,
        }
    }

    /// The variant with code `c`, if there is one.
    pub fn from_code(c: u8) -> (r: Option<GtfsStopLocationType>)
        ensures
            c < 5 <==> r is Some,
            r matches Some(v) ==> v.spec_code() == c,
    {
        match c {
            0 => Some(GtfsStopLocationType::Stop),
            1 => Some(GtfsStopLocationType::Station),
            2 => Some(GtfsStopLocationType::Entrance),
            3 => Some(GtfsStopLocationType::GenericNode),
            4 => Some(GtfsStopLocationType::BoardingArea),
            _ => None,
        }
    }
}

/// Whether wheelchair boarding is possible. Written in the tables as its code, the variant's position.
#[derive(Debug, Clone, Copy, PartialEq, Eq, Structural)]
pub enum GtfsWheelchairBoarding {
    /// No information.
    Unknown,
    /// Some vehicles or paths allow it.
    Possible,
    /// It is not possible.
    NotPossible,
}

impl GtfsWheelchairBoarding {
    pub open spec fn spec_code(&self) -> u8 {
        match self {
            GtfsWheelchairBoarding::Unknown => 0,
            GtfsWheelchairBoarding::Possible => 1,
            GtfsWheelchairBoarding::NotPossible => 2,
        }
    }

    /// The code written in the tables.
    pub fn code(&self) -> (r: u8)
        ensures
            r == self.spec_code(),
    {
        match self {
            GtfsWheelchairBoarding::Unknown => 0,
            GtfsWheelchairBoarding::Possible => 1,
            GtfsWheelchairBoarding::NotPossible => 2,
        }
    }

    /// The variant with code `c`, if there is one.
    pub fn from_code(c: u8) -> (r: Option<GtfsWheelchairBoarding>)
        ensures
            c < 3 <==> r is Some,
            r matches Some(v) ==> v.spec_code() == c,
    {
        match c {
            0 => Some(GtfsWheelchairBoarding::Unknown),
            1 => Some(GtfsWheelchairBoarding::Possible),
            2 => Some(GtfsWheelchairBoarding::NotPossible),
            _ => None,
        }
    }
}

/// How riders are picked up or dropped off at a stop-time. Written in the tables as its code, the variant's position.
#[derive(Debug, Clone, Copy, PartialEq, Eq, Structural)]
pub enum GtfsPickupDropOffType {
    /// Regularly scheduled.
    Regular,
    /// Not available.
    NoPickup,
    /// Arranged by phoning the agency.
    MustPhone,
    /// Arranged with the driver.
    MustCoordinate,
}

impl GtfsPickupDropOffType {
    pub open spec fn spec_code(&self) -> u8 {
        match self {
            GtfsPickupDropOffType::Regular => 0,
            GtfsPickupDropOffType::NoPickup => 1,
            GtfsPickupDropOffType::MustPhone => 2,
            GtfsPickupDropOffType::MustCoordinate => 3,
        }
    }

    /// The code written in the tables.
    pub fn code(&self) -> (r: u8)
        ensures
            r == self.spec_code(),
    {
        match self {
            GtfsPickupDropOffType::Regular => 0,
            GtfsPickupDropOffType::NoPickup => 1,
            GtfsPickupDropOffType::MustPhone => 2,
            GtfsPickupDropOffType::MustCoordinate => 3,
        }
    }

    /// The variant with code `c`, if there is one.
    pub fn from_code(c: u8) -> (r: Option<GtfsPickupDropOffType>)
        ensures
            c < 4 <==> r is Some,
            r matches Some(v) ==> v.spec_code() == c,
    {
        match c {
            0 => Some(GtfsPickupDropOffType::Regular),
            1 => Some(GtfsPickupDropOffType::NoPickup),
            2 => Some(GtfsPickupDropOffType::MustPhone),
            3 => Some(GtfsPickupDropOffType::MustCoordinate),
            _ => None,
        }
    }
}

/// Whether riders may board or alight anywhere along the route. Written in the tables as its code, the variant's position.
#[derive(Debug, Clone, Copy, PartialEq, Eq, Structural)]
pub enum GtfsContinuousPickupDropOff {
    /// Continuously.
    Continuous,
    /// Not continuously.
    NoContinuous,
    /// Arranged by phoning the agency.
    MustPhone,
    /// Arranged with the driver.
    MustCoordinate,
}

impl GtfsContinuousPickupDropOff {
    pub open spec fn spec_code(&self) -> u8 {
        match self {
            GtfsContinuousPickupDropOff::Continuous => 0,
            GtfsContinuousPickupDropOff::NoContinuous => 1,
            GtfsContinuousPickupDropOff::MustPhone => 2,
            GtfsContinuousPickupDropOff::MustCoordinate => 3,
        }
    }

    /// The code written in the tables.
    pub fn code(&self) -> (r: u8)
        ensures
            r == self.spec_code(),
    {
        match self {
            GtfsContinuousPickupDropOff::Continuous => 0,
            GtfsContinuousPickupDropOff::NoContinuous => 1,
            GtfsContinuousPickupDropOff::MustPhone => 2,
            GtfsContinuousPickupDropOff::MustCoordinate => 3,
        }
    }

    /// The variant with code `c`, if there is one.
    pub fn from_code(c: u8) -> (r: Option<GtfsContinuousPickupDropOff>)
        ensures
            c < 4 <==> r is Some,
            r matches Some(v) ==> v.spec_code() == c,
    {
        match c {
            0 => Some(GtfsContinuousPickupDropOff::Continuous),
            1 => Some(GtfsContinuousPickupDropOff::NoContinuous),
            2 => Some(GtfsContinuousPickupDropOff::MustPhone),
            3 => Some(GtfsContinuousPickupDropOff::MustCoordinate),
            _ => None,
        }
    }
}

/// Whether the times of a stop-time are exact or approximate. Written in the tables as its code, the variant's position.
#[derive(Debug, Clone, Copy, PartialEq, Eq, Structural)]
pub enum GtfsTimeAccuracy {
    /// Approximate times.
    Approximate,
    /// Exact times.
    Exact,
}

impl GtfsTimeAccuracy {
    pub open spec fn spec_code(&self) -> u8 {
        match self {
            GtfsTimeAccuracy::Approximate => 0,
            GtfsTimeAccuracy::Exact => 1,
        }
    }

    /// The code written in the tables.
    pub fn code(&self) -> (r: u8)
        ensures
            r == self.spec_code(),
    {
        match self {
            GtfsTimeAccuracy::Approximate => 0,
            GtfsTimeAccuracy::Exact => 1,
        }
    }

    /// The variant with code `c`, if there is one.
    pub fn from_code(c: u8) -> (r: Option<GtfsTimeAccuracy>)
        ensures
            c < 2 <==> r is Some,
            r matches Some(v) ==> v.spec_code() == c,
    {
        match c {
            0 => Some(GtfsTimeAccuracy::Approximate),
            1 => Some(GtfsTimeAccuracy::Exact),
            _ => None,
        }
    }
}

impl Default for GtfsTimeAccuracy {
    fn default() -> (r: GtfsTimeAccuracy)
        ensures
            r == GtfsTimeAccuracy::Exact,
    {
        GtfsTimeAccuracy::Exact
    }
}

} // verus!

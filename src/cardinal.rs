//! Cardinal and intercardinal points of the compass.
use vstd::prelude::*;

verus! {

/// A point of the compass, in steps of 45 degrees.
#[derive(Clone, Copy, Debug, PartialEq, Eq, Structural)]
pub enum Cardinal {
    North,
    NorthEast,
    East,
    SouthEast,
    South,
    SouthWest,
    West,
    NorthWest,
}

impl Cardinal {
    /// The bearing of the point, in degrees.
    pub open spec fn degrees_spec(self) -> int {
        match self {
            Cardinal::North => 0,
            Cardinal::NorthEast => 45,
            Cardinal::East => 90,
            Cardinal::SouthEast => 135,
            Cardinal::South => 180,
            Cardinal::SouthWest => 225,
            Cardinal::West => 270,
            Cardinal::NorthWest => 315,
        }
    }

    /// The bearing of the point, in degrees.
    pub fn degrees(&self) -> (r: u16)
        ensures
            r == self.degrees_spec(),
    {
        match self {
            Cardinal::North => 0,
            Cardinal::NorthEast => 45,
            Cardinal::East => 90,
            Cardinal::SouthEast => 135,
            Cardinal::South => 180,
            Cardinal::SouthWest => 225,
            Cardinal::West => 270,
            Cardinal::NorthWest => 315,
        }
    }

    /// The abbreviation, such as `NE`.
    pub fn as_string(&self) -> (r: String)
        ensures
            r@ == match self {
                Cardinal::North => "N"@,
                Cardinal::NorthEast => "NE"@,
                Cardinal::East => "E"@,
                Cardinal::SouthEast => "SE"@,
                Cardinal::South => "S"@,
                Cardinal::SouthWest => "SW"@,
                Cardinal::West => "W"@,
                Cardinal::NorthWest => "NW"@,
            },
    {
        match self {
            Cardinal::North => String::from_str("N"),
            Cardinal::NorthEast => String::from_str("NE"),
            Cardinal::East => String::from_str("E"),
            Cardinal::SouthEast => String::from_str("SE"),
            Cardinal::South => String::from_str("S"),
            Cardinal::SouthWest => String::from_str("SW"),
            Cardinal::West => String::from_str("W"),
            Cardinal::NorthWest => String::from_str("NW"),
        }
    }

    /// North or South: the point names a latitude.
    pub fn is_latitude(&self) -> (r: bool)
        ensures
            r == (*self == Cardinal::North || *self == Cardinal::South),
    {
        match self {
            Cardinal::North | Cardinal::South => true,
            _ => false,
        }
    }

    /// East or West: the point names a longitude.
    pub fn is_longitude(&self) -> (r: bool)
        ensures
            r == (*self == Cardinal::East || *self == Cardinal::West),
    {
        match self {
            Cardinal::East | Cardinal::West => true,
            _ => false,
        }
    }

    /// Both points name latitudes, or both name longitudes.
    pub fn same_kind(&self, rhs: Cardinal) -> (r: bool)
        ensures
            r == ((self.is_latitude_spec() && rhs.is_latitude_spec()) || (self.is_longitude_spec()
                && rhs.is_longitude_spec())),
    {
        (self.is_latitude() && rhs.is_latitude()) || (self.is_longitude() && rhs.is_longitude())
    }

    pub open spec fn is_latitude_spec(self) -> bool {
        self == Cardinal::North || self == Cardinal::South
    }

    pub open spec fn is_longitude_spec(self) -> bool {
        self == Cardinal::East || self == Cardinal::West
    }

    /// North, North-East or North-West.
    pub fn is_northern(&self) -> (r: bool)
        ensures
            r == (*self == Cardinal::North || *self == Cardinal::NorthEast || *self == Cardinal::NorthWest),
    {
        match self {
            Cardinal::North | Cardinal::NorthEast | Cardinal::NorthWest => true,
            _ => false,
        }
    }

    /// South, South-East or South-West.
    pub fn is_southern(&self) -> (r: bool)
        ensures
            r == (*self == Cardinal::South || *self == Cardinal::SouthEast || *self == Cardinal::SouthWest),
    {
        match self {
            Cardinal::South | Cardinal::SouthEast | Cardinal::SouthWest => true,
            _ => false,
        }
    }

    /// East, North-East or South-East.
    pub fn is_eastern(&self) -> (r: bool)
        ensures
            r == (*self == Cardinal::East || *self == Cardinal::NorthEast || *self == Cardinal::SouthEast),
    {
        match self {
            Cardinal::East | Cardinal::NorthEast | Cardinal::SouthEast => true,
            _ => false,
        }
    }

    /// West, North-West or South-West.
    pub fn is_western(&self) -> (r: bool)
        ensures
            r == (*self == Cardinal::West || *self == Cardinal::NorthWest || *self == Cardinal::SouthWest),
    {
        match self {
            Cardinal::West | Cardinal::NorthWest | Cardinal::SouthWest => true,
            _ => false,
        }
    }
}

impl Default for Cardinal {
    /// North.
    fn default() -> (r: Cardinal)
        ensures
            r == Cardinal::North,
    {
        Cardinal::North
    }
}

/// An operation between angles whose cardinals do not match.
#[derive(Clone, Copy, Debug, PartialEq, Eq, Structural)]
pub enum OpsError {
    IncompatibleCardinals,
}

impl OpsError {
    /// The error's message.
    pub fn as_string(&self) -> (r: String)
        ensures
            r@ == "incompatible cardinals"@,
    {
        String::from_str("incompatible cardinals")
    }
}

} // verus!

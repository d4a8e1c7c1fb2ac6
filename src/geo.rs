//! Hemispheres of geographic coordinates.
use vstd::prelude::*;

verus! {

/// The hemisphere of a latitude (North, South) or longitude (East, West).
#[derive(Clone, Copy, Debug, PartialEq, Eq, Structural)]
pub enum Cardinal {
    North,
    South,
    East,
    West,
}

impl Cardinal {
    /// `N`, `S`, `E` or `W`.
    pub fn as_string(&self) -> (r: String)
        ensures
            r@ == match self {
                Cardinal::North => "N"@,
                Cardinal::South => "S"@,
                Cardinal::East => "E"@,
                Cardinal::West => "W"@,
            },
    {
        match self {
            Cardinal::North => String::from_str("N"),
            Cardinal::South => String::from_str("S"),
            Cardinal::East => String::from_str("E"),
            Cardinal::West => String::from_str("W"),
        }
    }

    /// Whether degrees in this hemisphere count as negative: South and West.
    pub fn is_negative(&self) -> (r: bool)
        ensures
            r == (*self == Cardinal::South || *self == Cardinal::West),
    {
        match self {
            Cardinal::South | Cardinal::West => true,
            _ => false,
        }
    }
}

} // verus!

//! The closed vocabulary of the eight compass directions, with bit-set
//! semantics for sets of directions and a per-direction offset vector.

use vstd::prelude::*;

use crate::coordinate::Coordinate;

verus! {

/// A set of directions, encoded as one bit per direction.
#[derive(Copy, Clone, Debug, Hash, PartialEq, Eq, Structural)]
pub struct Directions {
    pub bits: u8,
}

impl Directions {
    pub fn north() -> (r: Directions)
        ensures
            r.bits == 0b00000001u8,
    {
        Directions { bits: 0b00000001 }
    }

    pub fn south() -> (r: Directions)
        ensures
            r.bits == 0b00000010u8,
    {
        Directions { bits: 0b00000010 }
    }

    pub fn east() -> (r: Directions)
        ensures
            r.bits == 0b00000100u8,
    {
        Directions { bits: 0b00000100 }
    }

    pub fn west() -> (r: Directions)
        ensures
            r.bits == 0b00001000u8,
    {
        Directions { bits: 0b00001000 }
    }

    pub fn north_west() -> (r: Directions)
        ensures
            r.bits == 0b00010000u8,
    {
        Directions { bits: 0b00010000 }
    }

    pub fn north_east() -> (r: Directions)
        ensures
            r.bits == 0b00100000u8,
    {
        Directions { bits: 0b00100000 }
    }

    pub fn south_west() -> (r: Directions)
        ensures
            r.bits == 0b01000000u8,
    {
        Directions { bits: 0b01000000 }
    }

    pub fn south_east() -> (r: Directions)
        ensures
            r.bits == 0b10000000u8,
    {
        Directions { bits: 0b10000000 }
    }

    /// The four cardinal directions.
    pub fn cardinal() -> (r: Directions)
        ensures
            r.bits == 0b00001111u8,
    {
        Directions { bits: 0b00001111 }
    }

    /// The four diagonal directions.
    pub fn diagonal() -> (r: Directions)
        ensures
            r.bits == 0b11110000u8,
    {
        Directions { bits: 0b11110000 }
    }

    /// All eight directions.
    pub fn all() -> (r: Directions)
        ensures
            r.bits == 0b11111111u8,
    {
        Directions { bits: 0b11111111 }
    }

    /// The empty set of directions.
    pub fn none() -> (r: Directions)
        ensures
            r.bits == 0b00000000u8,
    {
        Directions { bits: 0b00000000 }
    }

    /// True when every direction of `other` is also in `self`.
    pub fn contains(self, other: Directions) -> (r: bool)
        ensures
            r == (self.bits & other.bits == other.bits),
    {
        self.bits & other.bits == other.bits
    }

    /// The union of the two direction sets.
    pub fn union(self, other: Directions) -> (r: Directions)
        ensures
            r.bits == (self.bits | other.bits),
    {
        Directions { bits: self.bits | other.bits }
    }

    /// True when no direction is in the set.
    pub fn is_empty(self) -> (r: bool)
        ensures
            r == (self.bits == 0),
    {
        self.bits == 0
    }

    /// The single-direction set for one direction.
    pub fn from_direction(direction: Direction) -> (r: Directions)
        ensures
            r == spec_from_direction(direction),
    {
        match direction {
            Direction::North => Self::north(),
            Direction::South => Self::south(),
            Direction::East => Self::east(),
            Direction::West => Self::west(),
            Direction::NorthWest => Self::north_west(),
            Direction::NorthEast => Self::north_east(),
            Direction::SouthWest => Self::south_west(),
            Direction::SouthEast => Self::south_east(),
        }
    }

    /// The directions of the set, in the fixed order north, south, east,
    /// west, north-west, north-east, south-west, south-east.
    #[verifier::rlimit(50)]
    pub fn to_vec(self) -> (r: Vec<Direction>)
        ensures
            r@ == spec_to_seq(self),
    {
        let mut out: Vec<Direction> = Vec::new();
        if self.contains(Self::north()) {
            out.push(Direction::North);
        }
        if self.contains(Self::south()) {
            out.push(Direction::South);
        }
        if self.contains(Self::east()) {
            out.push(Direction::East);
        }
        if self.contains(Self::west()) {
            out.push(Direction::West);
        }
        if self.contains(Self::north_west()) {
            out.push(Direction::NorthWest);
        }
        if self.contains(Self::north_east()) {
            out.push(Direction::NorthEast);
        }
        if self.contains(Self::south_west()) {
            out.push(Direction::SouthWest);
        }
        if self.contains(Self::south_east()) {
            out.push(Direction::SouthEast);
        }
        assert(out@ =~= spec_to_seq(self));
        out
    }
}

/// The single-direction bit set of one direction.
pub open spec fn spec_from_direction(direction: Direction) -> Directions {
    match direction {
        Direction::North => Directions { bits: 0b00000001 },
        Direction::South => Directions { bits: 0b00000010 },
        Direction::East => Directions { bits: 0b00000100 },
        Direction::West => Directions { bits: 0b00001000 },
        Direction::NorthWest => Directions { bits: 0b00010000 },
        Direction::NorthEast => Directions { bits: 0b00100000 },
        Direction::SouthWest => Directions { bits: 0b01000000 },
        Direction::SouthEast => Directions { bits: 0b10000000 },
    }
}

/// Whether a direction set contains one single direction.
pub open spec fn spec_has(set: Directions, direction: Direction) -> bool {
    set.bits & spec_from_direction(direction).bits == spec_from_direction(direction).bits
}

/// The directions of a set, in the fixed listing order: each of the eight
/// directions appears exactly once when the set has it.
pub open spec fn spec_to_seq(set: Directions) -> Seq<Direction> {
    listed(set, Direction::North) + listed(set, Direction::South) + listed(set, Direction::East)
        + listed(set, Direction::West) + listed(set, Direction::NorthWest)
        + listed(set, Direction::NorthEast) + listed(set, Direction::SouthWest)
        + listed(set, Direction::SouthEast)
}

/// The one-element or empty sequence a direction contributes to a listing.
pub open spec fn listed(set: Directions, direction: Direction) -> Seq<Direction> {
    if spec_has(set, direction) {
        seq![direction]
    } else {
        Seq::empty()
    }
}

/// One compass direction.
#[derive(Copy, Clone, Debug, Hash, PartialEq, Eq, Structural)]
pub enum Direction {
    North,
    South,
    East,
    West,
    NorthWest,
    NorthEast,
    SouthWest,
    SouthEast,
}

impl Direction {
    /// The unit offset a piece moves by when it takes one step in this
    /// direction.
    pub fn offset(&self) -> (r: Coordinate)
        ensures
            r == spec_offset(*self),
    {
        match self {
            Direction::North => Coordinate::new(0, -1),
            Direction::South => Coordinate::new(0, 1),
            Direction::East => Coordinate::new(1, 0),
            Direction::West => Coordinate::new(-1, 0),
            Direction::NorthWest => Coordinate::new(-1, -1),
            Direction::NorthEast => Coordinate::new(1, -1),
            Direction::SouthWest => Coordinate::new(-1, 1),
            Direction::SouthEast => Coordinate::new(1, 1),
        }
    }
}

/// The unit offset of one direction.
pub open spec fn spec_offset(direction: Direction) -> Coordinate {
    match direction {
        Direction::North => Coordinate { row: 0i16, column: -1i16 },
        Direction::South => Coordinate { row: 0i16, column: 1i16 },
        Direction::East => Coordinate { row: 1i16, column: 0i16 },
        Direction::West => Coordinate { row: -1i16, column: 0i16 },
        Direction::NorthWest => Coordinate { row: -1i16, column: -1i16 },
        Direction::NorthEast => Coordinate { row: 1i16, column: -1i16 },
        Direction::SouthWest => Coordinate { row: -1i16, column: 1i16 },
        Direction::SouthEast => Coordinate { row: 1i16, column: 1i16 },
    }
}

} // verus!

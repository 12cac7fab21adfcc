//! The discrete compass: a four-point direction wheel used by the
//! grid-style agents, rotating one quarter turn at a time.

use vstd::prelude::*;

verus! {

/// One of the four compass points.
#[derive(Clone, Copy, PartialEq, Eq, Structural, Debug)]
pub enum Direction {
    North,
    East,
    South,
    West,
}

/// The compass point a byte selects, by its low two bits.
pub open spec fn direction_of(value: u8) -> Direction {
    if value % 4 == 3 {
        Direction::West
    } else if value % 4 == 2 {
        Direction::South
    } else if value % 4 == 1 {
        Direction::East
    } else {
        Direction::North
    }
}

/// One quarter turn clockwise.
pub open spec fn clockwise(d: Direction) -> Direction {
    match d {
        Direction::North => Direction::East,
        Direction::East => Direction::South,
        Direction::South => Direction::West,
        Direction::West => Direction::North,
    }
}

/// One quarter turn counter-clockwise.
pub open spec fn counter_clockwise(d: Direction) -> Direction {
    match d {
        Direction::North => Direction::West,
        Direction::West => Direction::South,
        Direction::South => Direction::East,
        Direction::East => Direction::North,
    }
}

impl Direction {
    /// The compass point of a byte: only the low two bits matter.
    pub fn from(value: u8) -> (r: Direction)
        ensures
            r == direction_of(value),
    {
        proof {
            assert(value & 0b11 == value % 4) by (bit_vector);
        }
        match value & 0b11 {
            3 => Direction::West,
            2 => Direction::South,
            1 => Direction::East,
            _ => Direction::North,
        }
    }

    /// The byte encoding of this compass point, inverse to
    /// [`Direction::from`].
    pub fn as_u8(self) -> (r: u8)
        ensures
            r < 4,
            direction_of(r) == self,
    {
        match self {
            Direction::North => 0,
            Direction::East => 1,
            Direction::South => 2,
            Direction::West => 3,
        }
    }
}

/// Direction wheel: four consecutive clockwise quarter turns return to the
/// original direction, and so do four counter-clockwise ones.
pub proof fn lemma_wheel_full_turn(d: Direction)
    ensures
        clockwise(clockwise(clockwise(clockwise(d)))) == d,
        counter_clockwise(counter_clockwise(counter_clockwise(counter_clockwise(d)))) == d,
{
}

/// Direction wheel: a counter-clockwise turn exactly inverts a clockwise
/// turn, and the other way round.
pub proof fn lemma_turns_invert(d: Direction)
    ensures
        counter_clockwise(clockwise(d)) == d,
        clockwise(counter_clockwise(d)) == d,
{
}

} // verus!

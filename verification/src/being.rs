//! The grid-style agent: one brain and one compass heading, turning in
//! quarter steps.

use vstd::prelude::*;

use crate::gene::{decodes, Genome};
use crate::geo::{clockwise, counter_clockwise, Direction};
use crate::neural::Brain;

verus! {

/// An agent on the compass wheel: a heading it can rotate a quarter turn
/// at a time, and the brain its genome decodes to.
pub struct Being {
    direction: Direction,
    brain: Brain,
}

impl Being {
    /// A new agent with a random heading and the genome's brain.
    pub fn new(genome: &Genome) -> (r: Being)
        requires
            genome@.len() <= 0x4000_0000,
        ensures
            r.brain().wf(),
            decodes(r.brain(), genome@),
    {
        let direction = Direction::from(rand::random::<u8>());
        Being { direction, brain: genome.build() }
    }

    /// The brain, at the specification level.
    pub closed spec fn brain(&self) -> Brain {
        self.brain
    }

    /// The current heading, at the specification level.
    pub closed spec fn heading(&self) -> Direction {
        self.direction
    }

    /// The current heading.
    pub fn direction(&self) -> (r: Direction)
        ensures
            r == self.heading(),
    {
        self.direction
    }

    /// Rotate one quarter turn clockwise.
    pub fn turn_right(&mut self)
        ensures
            final(self).heading() == clockwise(old(self).heading()),
            final(self).brain() == old(self).brain(),
    {
        let next = self.direction.as_u8() + 1;
        self.direction = Direction::from(next);
    }

    /// Rotate one quarter turn counter-clockwise.
    pub fn turn_left(&mut self)
        ensures
            final(self).heading() == counter_clockwise(old(self).heading()),
            final(self).brain() == old(self).brain(),
    {
        let next = self.direction.as_u8().wrapping_sub(1);
        self.direction = Direction::from(next);
    }
}

} // verus!

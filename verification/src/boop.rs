//! One simulated creature: a [`Mind`] (brain plus genome) and a [`Body`]
//! (heading plus energy), and sexual reproduction with optional mutation
//! across generations.

use vstd::prelude::*;

use crate::fixed::ONE;
use crate::gene::{crossed, decodes, gene_ok, mutant_of, Genome};
use crate::neural::Brain;
use crate::rng::random_unit;
use crate::world::{wrap_rad, Direction};

verus! {

/// The ceiling of stored energy: sixteen full meals of reserve.
pub const ENERGY_CAP: i64 = 255 * 16 * ONE;

/// An agent's physical half: its heading and its energy reserve.
pub struct Body {
    direction: Direction,
    energy: i64,
}

impl Body {
    /// The heading, at the specification level.
    pub closed spec fn direction_spec(&self) -> int {
        self.direction@
    }

    /// The energy reserve, at the specification level.
    pub closed spec fn energy_spec(&self) -> int {
        self.energy as int
    }

    /// A fresh body: a random heading and a full byte of energy.
    pub fn new() -> (r: Body)
        ensures
            r.energy_spec() == 255 * ONE,
    {
        Body { direction: Direction::random(), energy: 255 * ONE }
    }

    /// The current heading.
    pub fn direction(&self) -> (r: Direction)
        ensures
            r@ == self.direction_spec(),
    {
        self.direction
    }

    /// Spend energy; the reserve may run below zero, which the caller
    /// reads as exhaustion.
    pub fn drain(&mut self, amount: i64)
        requires
            0 <= amount <= 0x1_0000_0000,
            -0x1000_0000_0000 <= old(self).energy_spec() <= 0x1000_0000_0000,
        ensures
            final(self).energy_spec() == old(self).energy_spec() - amount,
            final(self).direction_spec() == old(self).direction_spec(),
    {
        self.energy = self.energy - amount;
    }

    /// Turn clockwise by `amount` radians, wrapping within one turn.
    pub fn turn_right(&mut self, amount: i64)
        requires
            0 <= amount <= 0x100_0000_0000,
        ensures
            final(self).direction_spec() == wrap_rad(old(self).direction_spec() + amount),
            final(self).energy_spec() == old(self).energy_spec(),
    {
        self.direction.add_rad(amount);
    }

    /// Turn counter-clockwise by `amount` radians, wrapping within one
    /// turn.
    pub fn turn_left(&mut self, amount: i64)
        requires
            0 <= amount <= 0x100_0000_0000,
        ensures
            final(self).direction_spec() == wrap_rad(old(self).direction_spec() - amount),
            final(self).energy_spec() == old(self).energy_spec(),
    {
        self.direction.sub_rad(amount);
    }

    /// The energy reserve.
    pub fn energy(&self) -> (r: i64)
        ensures
            r == self.energy_spec(),
    {
        self.energy
    }

    /// Take in energy, up to the storage ceiling.
    pub fn restore_energy(&mut self, energy: u8)
        requires
            -0x1000_0000_0000 <= old(self).energy_spec() <= 0x1000_0000_0000,
        ensures
            final(self).energy_spec() == if old(self).energy_spec() + energy * ONE > ENERGY_CAP {
                ENERGY_CAP as int
            } else {
                old(self).energy_spec() + energy * ONE
            },
            final(self).direction_spec() == old(self).direction_spec(),
    {
        let refilled = self.energy + (energy as i64) * ONE;
        self.energy = if refilled > ENERGY_CAP {
            ENERGY_CAP
        } else {
            refilled
        };
    }
}

/// An agent's deciding half: the brain its genome decodes to, and the
/// genome itself for reproduction.
pub struct Mind {
    /// The wired neuron graph.
    pub brain: Brain,
    /// The heritable wiring description it was built from.
    pub genome: Genome,
}

impl Mind {
    /// A mind decoded from a fresh random genome.
    pub fn random(synapses: u16, hidden_neurons: u8) -> (r: Mind)
        ensures
            r.brain.wf(),
            decodes(r.brain, r.genome@),
            r.genome@.len() == synapses,
            forall|i: int|
                0 <= i < r.genome@.len() ==> gene_ok(#[trigger] r.genome@[i], hidden_neurons as u32),
            forall|j: int|
                0 <= j < r.brain.inputs@.len() ==> (#[trigger] r.brain.inputs@[j]).latch == 0
                    && !r.brain.inputs@[j].visited,
            forall|j: int|
                0 <= j < r.brain.hiddens@.len() ==> (#[trigger] r.brain.hiddens@[j]).latch == 0
                    && !r.brain.hiddens@[j].visited,
    {
        let genome = Genome::random(synapses, hidden_neurons);
        Mind { brain: genome.build(), genome }
    }

    /// A mind decoded from an inherited genome.
    pub fn from(genome: Genome) -> (r: Mind)
        requires
            genome@.len() <= 0x4000_0000,
        ensures
            r.brain.wf(),
            decodes(r.brain, r.genome@),
            r.genome@ == genome@,
            forall|j: int|
                0 <= j < r.brain.inputs@.len() ==> (#[trigger] r.brain.inputs@[j]).latch == 0
                    && !r.brain.inputs@[j].visited,
            forall|j: int|
                0 <= j < r.brain.hiddens@.len() ==> (#[trigger] r.brain.hiddens@[j]).latch == 0
                    && !r.brain.hiddens@[j].visited,
    {
        Mind { brain: genome.build(), genome }
    }

    /// The genome.
    pub fn genome(&self) -> (r: &Genome)
        ensures
            r@ == self.genome@,
    {
        &self.genome
    }
}

/// What one round of reproduction can produce: a uniform crossover of the
/// two parent genomes, possibly with one gene replaced by a single-bit
/// mutant of itself.
pub open spec fn bred_from(child: Seq<u32>, a: Seq<u32>, b: Seq<u32>, hidden: u32) -> bool {
    exists|mid: Seq<u32>|
        #[trigger] crossed(mid, a, b) && (child == mid || (exists|i: int|
            0 <= i < mid.len() && mutant_of(#[trigger] child[i], mid[i], hidden) && (forall|j: int|
                0 <= j < mid.len() && j != i ==> child[j] == mid[j])))
}

/// One whole creature.
pub struct Boop {
    /// The deciding half.
    pub mind: Mind,
    /// The physical half.
    pub body: Body,
}

impl Boop {
    /// A fresh creature with a random genome.
    pub fn new(synapses: u16, hidden_neurons: u8) -> (r: Boop)
        ensures
            r.mind.brain.wf(),
            decodes(r.mind.brain, r.mind.genome@),
            r.body.energy_spec() == 255 * ONE,
            r.mind.genome@.len() == synapses,
            forall|j: int|
                0 <= j < r.mind.brain.inputs@.len() ==> (#[trigger] r.mind.brain.inputs@[j]).latch
                    == 0 && !r.mind.brain.inputs@[j].visited,
            forall|j: int|
                0 <= j < r.mind.brain.hiddens@.len() ==> (#[trigger] r.mind.brain.hiddens@[j]).latch
                    == 0 && !r.mind.brain.hiddens@[j].visited,
    {
        Boop { mind: Mind::random(synapses, hidden_neurons), body: Body::new() }
    }

    /// The genome's coarse identity, used downstream as a colour key.
    pub fn signature(&self) -> (r: u32)
        ensures
            r == crate::gene::xor_fold(self.mind.genome@),
    {
        self.mind.genome().signature()
    }

    /// Cross this creature's genome with a mate's, mutate the child with
    /// probability `mutability` (a unit-interval scalar), and grow a fresh
    /// creature from the result.
    pub fn mate(&self, mate: &Boop, mutability: i64, hidden_neurons: u8) -> (r: Boop)
        requires
            self.mind.genome@.len() == mate.mind.genome@.len(),
            self.mind.genome@.len() <= 0x4000_0000,
        ensures
            r.mind.brain.wf(),
            r.mind.genome@.len() == self.mind.genome@.len(),
            bred_from(r.mind.genome@, self.mind.genome@, mate.mind.genome@, hidden_neurons as u32),
            decodes(r.mind.brain, r.mind.genome@),
            r.body.energy_spec() == 255 * ONE,
    {
        let mut spawn = self.mind.genome().combine(mate.mind.genome());
        let ghost mid = spawn@;
        if random_unit() < mutability {
            spawn.mutate(hidden_neurons);
        }
        proof {
            assert(crossed(mid, self.mind.genome@, mate.mind.genome@));
        }
        Boop { mind: Mind::from(spawn), body: Body::new() }
    }
}

} // verus!

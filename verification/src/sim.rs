//! The top level: one simulation couples a population of creatures with a
//! world, drives the per-tick sense, decide, act cycle, and breeds the next
//! generation from the survivors standing on food.

use vstd::prelude::*;
use vstd::pervasive::VecAdditionalExecFns;

use crate::boop::{bred_from, Body, Boop};
use crate::neural::{cleared, hidden_topology, output_topology, state_of, stimulus_prefix, Brain, EvalState};
use crate::fixed::{clamp_spec, ONE};
use crate::gene::{decodes, xor_fold};
use crate::rng::{choose_from, random_unit, shuffle};
use crate::signal::Signal;
use crate::trig::{atan2_spec, TAU};
use crate::world::{advance_target, dist2_spec, in_arena, limit_of, near_food, views_of, wrap_rad, Coordinate, Direction, World};

verus! {

/// The chance, per breeding, that the child genome suffers one mutation: a
/// unit-interval scalar of about one in a thousand (65 / ONE).
pub const MUTABILITY: i64 = 65;

/// How many food points a world starts with.
pub const FOOD_POINTS: usize = 4;

/// A position in the population, distinguished from a plain count.
#[derive(Clone, Copy, PartialEq, Eq, Structural, PartialOrd, Ord, Debug)]
pub struct Index(pub usize);

/// The sensors an agent exposes, keyed by the sensor slot of its genes.
#[derive(Clone, Copy, PartialEq, Eq, Structural, PartialOrd, Ord, Debug)]
pub enum Input {
    /// The agent's own heading, scaled into the unit interval.
    Direction,
    /// The bearing of the nearest food, relative to the heading.
    FoodDirection,
    /// The distance of the nearest food, scaled by the arena size.
    FoodDistance,
    /// A constant full signal.
    Unit,
    /// Uniform noise.
    Random,
}

/// The sensor a slot selects, when it selects one.
pub open spec fn input_of(index: u8) -> Option<Input> {
    if index == 0 {
        Some(Input::Direction)
    } else if index == 1 {
        Some(Input::FoodDirection)
    } else if index == 2 {
        Some(Input::FoodDistance)
    } else if index == 3 {
        Some(Input::Unit)
    } else if index == 4 {
        Some(Input::Random)
    } else {
        None
    }
}

impl Input {
    /// The checked mapping from a sensor slot to its sensor: genome
    /// clamping keeps slots in range, but the lookup stays total.
    pub fn from(index: u8) -> (r: Option<Input>)
        ensures
            r == input_of(index),
    {
        match index {
            0 => Some(Input::Direction),
            1 => Some(Input::FoodDirection),
            2 => Some(Input::FoodDistance),
            3 => Some(Input::Unit),
            4 => Some(Input::Random),
            _ => None,
        }
    }
}

/// The food point at `fi` is at least as close to `pos` as every food
/// point: the one a food sensor reads.
pub open spec fn nearest_food_at(food: Seq<(Coordinate, u8)>, fi: int, pos: (int, int)) -> bool {
    &&& 0 <= fi < food.len()
    &&& forall|fj: int|
        0 <= fj < food.len() ==> dist2_spec(food[fi].0@, pos) <= dist2_spec(
            (#[trigger] food[fj]).0@,
            pos,
        )
}

/// What the distance sensor reports through the food point at `fi`: the
/// floor square root `d` of the minimal squared distance, scaled down by
/// the arena size and capped into the unit interval.
pub open spec fn distance_reading(
    food: Seq<(Coordinate, u8)>,
    fi: int,
    pos: (int, int),
    d: int,
    size: int,
    v: int,
) -> bool {
    &&& nearest_food_at(food, fi, pos)
    &&& 0 <= d
    &&& d * d <= dist2_spec(food[fi].0@, pos) < (d + 1) * (d + 1)
    &&& v == clamp_spec(d / size, 0, ONE as int)
}

/// What the bearing sensor reports through the food point at `fi`: the
/// wrapped bearing from the agent to the food, relative to the agent's
/// heading, scaled by the full turn and capped into the unit interval.
pub open spec fn bearing_reading(
    food: Seq<(Coordinate, u8)>,
    fi: int,
    pos: (int, int),
    heading: int,
    v: int,
) -> bool {
    &&& nearest_food_at(food, fi, pos)
    &&& v == clamp_spec(
        wrap_rad(
            wrap_rad(atan2_spec(food[fi].0@.1 - pos.1, food[fi].0@.0 - pos.0)) - heading,
        ) * (ONE as int) / (TAU as int),
        0,
        ONE as int,
    )
}

impl Input {
    /// Read this sensor for agent `index`: the heading and unit sensors
    /// are exact, the food sensors report the nearest food point, and the
    /// noise sensor draws fresh randomness. Every reading is a unit
    /// signal.
    pub fn sense(self, simulation: &Simulation, index: usize) -> (r: Signal)
        requires
            simulation.wf(),
            index < simulation.boops_spec().len(),
        ensures
            0 <= r@ <= ONE,
            self is Direction ==> r@ == clamp_spec(
                simulation.boops_spec()[index as int].body.direction_spec() * ONE / (TAU as int),
                0,
                ONE as int,
            ),
            self is Unit ==> r@ == ONE,
            (self is FoodDirection || self is FoodDistance)
                && simulation.world_spec().food_view().len() == 0 ==> r@ == 0,
            self is FoodDistance && simulation.world_spec().food_view().len() > 0 ==> exists|
                fi: int,
                d: int,
            |
                #[trigger] distance_reading(
                    simulation.world_spec().food_view(),
                    fi,
                    simulation.world_spec().positions()[index as int]@,
                    d,
                    simulation.world_spec().size_spec() as int,
                    r@,
                ),
            self is FoodDirection && simulation.world_spec().food_view().len() > 0 ==> exists|
                fi: int,
            |
                #[trigger] bearing_reading(
                    simulation.world_spec().food_view(),
                    fi,
                    simulation.world_spec().positions()[index as int]@,
                    simulation.boops_spec()[index as int].body.direction_spec(),
                    r@,
                ),
    {
        match self {
            Input::Direction => {
                let rad = simulation.boops[index].body.direction().as_rad();
                let scaled = scale_by_turn(rad);
                Signal::cap(scaled)
            },
            Input::FoodDirection => {
                match simulation.nearest_food(index) {
                    None => Signal::from_bool(false),
                    Some(f) => {
                        let coord = simulation.world.boop(index);
                        let heading = simulation.boops[index].body.direction();
                        proof {
                            assert(in_arena(
                                (simulation.world_spec().positions()[index as int])@,
                                limit_of(simulation.world_spec().size_spec()),
                            ));
                        }
                        let relative = f.dir_from(coord).minus(heading);
                        let scaled = scale_by_turn(relative.as_rad());
                        let reading = Signal::cap(scaled);
                        proof {
                            let food = simulation.world_spec().food_view();
                            let pos = simulation.world_spec().positions()[index as int]@;
                            let fi = choose|fi: int| 0 <= fi < food.len() && food[fi].0 == f;
                            assert(nearest_food_at(food, fi, pos));
                            assert(bearing_reading(
                                food,
                                fi,
                                pos,
                                simulation.boops_spec()[index as int].body.direction_spec(),
                                reading@,
                            ));
                        }
                        reading
                    },
                }
            },
            Input::FoodDistance => {
                match simulation.nearest_food(index) {
                    None => Signal::from_bool(false),
                    Some(f) => {
                        let coord = simulation.world.boop(index);
                        proof {
                            assert(in_arena(
                                (simulation.world_spec().positions()[index as int])@,
                                limit_of(simulation.world_spec().size_spec()),
                            ));
                        }
                        let d = f.distance(coord);
                        proof {
                            assert(dist2_spec(f@, coord@) <= 2 * (0x1000_0000 * 0x1000_0000))
                                by (nonlinear_arith)
                                requires
                                    -0x1000_0000 <= f@.0 - coord@.0 <= 0x1000_0000,
                                    -0x1000_0000 <= f@.1 - coord@.1 <= 0x1000_0000,
                            ;
                            assert(d <= 0x2000_0000) by (nonlinear_arith)
                                requires
                                    d >= 0,
                                    d * d <= dist2_spec(f@, coord@),
                                    dist2_spec(f@, coord@) <= 2 * (0x1000_0000 * 0x1000_0000),
                            ;
                        }
                        let size = simulation.world.size();
                        let scaled = d / (size as i64);
                        let reading = Signal::cap(scaled);
                        proof {
                            let food = simulation.world_spec().food_view();
                            let pos = simulation.world_spec().positions()[index as int]@;
                            let fi = choose|fi: int| 0 <= fi < food.len() && food[fi].0 == f;
                            assert(nearest_food_at(food, fi, pos));
                            assert(distance_reading(
                                food,
                                fi,
                                pos,
                                d as int,
                                simulation.world_spec().size_spec() as int,
                                reading@,
                            ));
                        }
                        reading
                    },
                }
            },
            Input::Unit => Signal::from_bool(true),
            Input::Random => Signal::cap(random_unit()),
        }
    }
}

/// The actuators an agent exposes, keyed by the actuator slot of its genes.
#[derive(Clone, Copy, PartialEq, Eq, Structural, PartialOrd, Ord, Debug)]
pub enum Output {
    /// Rotate counter-clockwise by the signal, in radians.
    TurnLeft,
    /// Rotate clockwise by the signal, in radians.
    TurnRight,
    /// Move forward by the signal, in arena units.
    Advance,
    /// Do nothing.
    Noop,
}

/// The actuator a slot selects, when it selects one.
pub open spec fn output_of(index: u8) -> Option<Output> {
    if index == 0 {
        Some(Output::TurnLeft)
    } else if index == 1 {
        Some(Output::TurnRight)
    } else if index == 2 {
        Some(Output::Advance)
    } else if index == 3 {
        Some(Output::Noop)
    } else {
        None
    }
}

impl Output {
    /// The checked mapping from an actuator slot to its actuator.
    pub fn from(index: u8) -> (r: Option<Output>)
        ensures
            r == output_of(index),
    {
        match index {
            0 => Some(Output::TurnLeft),
            1 => Some(Output::TurnRight),
            2 => Some(Output::Advance),
            3 => Some(Output::Noop),
            _ => None,
        }
    }

    /// Apply this actuator's action for agent `index`: the turns rotate
    /// the body by the stimulus, advancing moves the agent through the
    /// world with collision avoidance, and a no-op changes nothing.
    pub fn act(self, world: &mut World, body: &mut Body, index: usize, stimulus: i64)
        requires
            old(world).wf(),
            index < old(world).positions().len(),
            0 <= stimulus <= ONE,
        ensures
            final(world).wf(),
            final(world).size_spec() == old(world).size_spec(),
            final(world).food_view() == old(world).food_view(),
            final(world).positions().len() == old(world).positions().len(),
            forall|j: int|
                0 <= j < old(world).positions().len() && j != index ==> #[trigger] final(world).positions()[j] == old(world).positions()[j],
            final(body).energy_spec() == old(body).energy_spec(),
            self is TurnLeft ==> *final(world) == *old(world) && final(body).direction_spec()
                == wrap_rad(old(body).direction_spec() - stimulus),
            self is TurnRight ==> *final(world) == *old(world) && final(body).direction_spec()
                == wrap_rad(old(body).direction_spec() + stimulus),
            self is Noop ==> *final(world) == *old(world) && *final(body) == *old(body),
            self is Advance ==> *final(body) == *old(body) && final(world).positions()[index as int]@ == advance_target(
                views_of(old(world).positions()),
                index as int,
                old(body).direction_spec(),
                stimulus as int,
                limit_of(old(world).size_spec()),
            ),
    {
        match self {
            Output::TurnLeft => {
                body.turn_left(stimulus);
            },
            Output::TurnRight => {
                body.turn_right(stimulus);
            },
            Output::Advance => {
                let heading = body.direction();
                world.advance(index, stimulus, heading);
            },
            Output::Noop => {},
        }
    }

    /// Whether a stimulus on this actuator produces an action: everything
    /// spikes but a no-op.
    pub fn spike(self, stimulus: i64) -> (r: Option<(Output, i64)>)
        ensures
            r == if self is Noop {
                Option::<(Output, i64)>::None
            } else {
                Some((self, stimulus))
            },
    {
        match self {
            Output::Noop => None,
            _ => Some((self, stimulus)),
        }
    }
}

/// What one sensor reading is allowed to be, given the agent's heading and
/// how much food the world holds: the heading and unit sensors and unknown
/// slots are pinned exactly, the food sensors are pinned to zero when no
/// food exists, and every reading lies in the unit interval. The noise
/// sensor and the food sensors over a non-empty table keep their freedom
/// here; [`Input::sense`] states the food sensors exactly.
pub open spec fn sense_pinned(sensor: Option<Input>, heading: int, food_count: int, v: i64) -> bool {
    &&& 0 <= v <= ONE
    &&& (sensor == Some(Input::Direction) ==> v == clamp_spec(
        heading * (ONE as int) / (TAU as int),
        0,
        ONE as int,
    ))
    &&& (sensor == Some(Input::Unit) ==> v == ONE)
    &&& (sensor is None ==> v == 0)
    &&& ((sensor == Some(Input::FoodDirection) || sensor == Some(Input::FoodDistance))
        && food_count == 0 ==> v == 0)
}

/// The per-tick run of one brain on given senses: the memoized evaluation
/// [`stimulus_prefix`] describes, from cleared visited flags.
pub open spec fn agent_run(b: Brain, senses: Seq<i64>) -> (Seq<int>, EvalState) {
    stimulus_prefix(
        hidden_topology(b.hiddens@),
        cleared(state_of(b.inputs@, b.hiddens@)),
        output_topology(b.outputs@),
        b.outputs@.len() as int,
        senses,
    )
}

/// The actuator commands one brain reports for given senses: its output
/// slots paired with the capped aggregates of its run.
pub open spec fn brain_outs(b: Brain, senses: Seq<i64>) -> Seq<(u8, i64)> {
    Seq::new(b.outputs@.len(), |k: int| (b.outputs@[k].slot, agent_run(b, senses).0[k] as i64))
}

/// The position views and the heading of agent `index` after the first `k`
/// of its actuator commands act in order: turns rotate the heading, an
/// advance moves the agent to its collision-guarded target, anything else
/// changes nothing.
pub open spec fn act_prefix(
    positions: Seq<(int, int)>,
    heading: int,
    index: int,
    outs: Seq<(u8, i64)>,
    k: int,
    max: int,
) -> (Seq<(int, int)>, int)
    decreases k,
{
    if k <= 0 || k > outs.len() {
        (positions, heading)
    } else {
        let prior = act_prefix(positions, heading, index, outs, k - 1, max);
        let slot = outs[k - 1].0;
        let stim = outs[k - 1].1 as int;
        if output_of(slot) == Some(Output::TurnLeft) {
            (prior.0, wrap_rad(prior.1 - stim))
        } else if output_of(slot) == Some(Output::TurnRight) {
            (prior.0, wrap_rad(prior.1 + stim))
        } else if output_of(slot) == Some(Output::Advance) {
            (prior.0.update(index, advance_target(prior.0, index, prior.1, stim, max)), prior.1)
        } else {
            prior
        }
    }
}

/// One agent's whole tick on given senses: every actuator command of its
/// brain's run, acting in order.
pub open spec fn agent_tick(
    b: Brain,
    positions: Seq<(int, int)>,
    heading: int,
    index: int,
    senses: Seq<i64>,
    max: int,
) -> (Seq<(int, int)>, int) {
    act_prefix(positions, heading, index, brain_outs(b, senses), b.outputs@.len() as int, max)
}

/// The headings of a roster of creatures, in order.
pub open spec fn headings_of(boops: Seq<Boop>) -> Seq<int> {
    boops.map(|i: int, b: Boop| b.body.direction_spec())
}

/// The position views and headings after the first `i` agents each take
/// their tick, in index order: an agent acting later observes the already
/// updated positions of agents that acted earlier.
pub open spec fn step_prefix(
    boops: Seq<Boop>,
    positions: Seq<(int, int)>,
    headings: Seq<int>,
    sensed: Seq<Seq<i64>>,
    i: int,
    max: int,
) -> (Seq<(int, int)>, Seq<int>)
    decreases i,
{
    if i <= 0 || i > boops.len() || i > sensed.len() || i > headings.len() {
        (positions, headings)
    } else {
        let prior = step_prefix(boops, positions, headings, sensed, i - 1, max);
        let ticked = agent_tick(
            boops[i - 1].mind.brain,
            prior.0,
            prior.1[i - 1],
            i - 1,
            sensed[i - 1],
            max,
        );
        (ticked.0, prior.1.update(i - 1, ticked.1))
    }
}

proof fn lemma_act_prefix_len(
    positions: Seq<(int, int)>,
    heading: int,
    index: int,
    outs: Seq<(u8, i64)>,
    k: int,
    max: int,
)
    requires
        0 <= index < positions.len(),
    ensures
        act_prefix(positions, heading, index, outs, k, max).0.len() == positions.len(),
    decreases k,
{
    if 0 < k <= outs.len() {
        lemma_act_prefix_len(positions, heading, index, outs, k - 1, max);
    }
}

proof fn lemma_step_prefix_len(
    boops: Seq<Boop>,
    positions: Seq<(int, int)>,
    headings: Seq<int>,
    sensed: Seq<Seq<i64>>,
    i: int,
    max: int,
)
    requires
        boops.len() <= positions.len(),
    ensures
        step_prefix(boops, positions, headings, sensed, i, max).0.len() == positions.len(),
        step_prefix(boops, positions, headings, sensed, i, max).1.len() == headings.len(),
    decreases i,
{
    if 0 < i && i <= boops.len() && i <= sensed.len() && i <= headings.len() {
        lemma_step_prefix_len(boops, positions, headings, sensed, i - 1, max);
        let prior = step_prefix(boops, positions, headings, sensed, i - 1, max);
        let b = boops[i - 1].mind.brain;
        lemma_act_prefix_len(
            prior.0,
            prior.1[i - 1],
            i - 1,
            brain_outs(b, sensed[i - 1]),
            b.outputs@.len() as int,
            max,
        );
    }
}

proof fn lemma_step_prefix_extend(
    boops: Seq<Boop>,
    positions: Seq<(int, int)>,
    headings: Seq<int>,
    sensed: Seq<Seq<i64>>,
    extra: Seq<i64>,
    i: int,
    max: int,
)
    requires
        i <= sensed.len(),
    ensures
        step_prefix(boops, positions, headings, sensed.push(extra), i, max) == step_prefix(
            boops,
            positions,
            headings,
            sensed,
            i,
            max,
        ),
    decreases i,
{
    if i > 0 && i <= boops.len() && i <= headings.len() {
        lemma_step_prefix_extend(boops, positions, headings, sensed, extra, i - 1, max);
        assert(sensed.push(extra)[i - 1] == sensed[i - 1]);
    }
}

/// Everything one tick does, witnessed by the sensor readings the agents
/// drew: each agent's readings are unit-bounded, pinned where the sensor is
/// deterministic, and the final positions, headings and brain caches are
/// the fold of the whole sense-decide-act pipeline over them, agent by
/// agent. Energies and genomes are untouched.
pub open spec fn tick_outcome(pre: Simulation, post: Simulation, sensed: Seq<Seq<i64>>) -> bool {
    let boops = pre.boops_spec();
    let max = limit_of(pre.world_spec().size_spec());
    let run = step_prefix(
        boops,
        views_of(pre.world_spec().positions()),
        headings_of(boops),
        sensed,
        boops.len() as int,
        max,
    );
    &&& sensed.len() == boops.len()
    &&& (forall|i: int|
        0 <= i < boops.len() ==> (#[trigger] sensed[i]).len()
            == boops[i].mind.brain.inputs@.len())
    &&& (forall|i: int, j: int|
        #![trigger sensed[i][j]]
        0 <= i < boops.len() && 0 <= j < sensed[i].len() ==> sense_pinned(
            input_of(boops[i].mind.brain.inputs@[j].slot),
            boops[i].body.direction_spec(),
            pre.world_spec().food_view().len() as int,
            sensed[i][j],
        ))
    &&& views_of(post.world_spec().positions()) == run.0
    &&& (forall|i: int|
        0 <= i < boops.len() ==> (#[trigger] post.boops_spec()[i]).body.direction_spec()
            == run.1[i])
    &&& (forall|i: int|
        0 <= i < boops.len() ==> (#[trigger] post.boops_spec()[i]).body.energy_spec()
            == boops[i].body.energy_spec())
    &&& (forall|i: int|
        0 <= i < boops.len() ==> state_of(
            (#[trigger] post.boops_spec()[i]).mind.brain.inputs@,
            post.boops_spec()[i].mind.brain.hiddens@,
        ) == agent_run(boops[i].mind.brain, sensed[i]).1)
}

/// A food coordinate lies inside the simulation's arena.
pub open spec fn in_arena_food(f: Coordinate, s: Simulation) -> bool {
    in_arena(f@, limit_of(s.world_spec().size_spec()))
}

/// Agent `i` of the world stands near some food point.
pub open spec fn eats_at(w: World, i: int) -> bool {
    exists|f: int|
        0 <= f < w.food_view().len() && near_food(
            (#[trigger] w.food_view()[f]).0@,
            w.positions()[i]@,
        )
}

/// The colour a genome signature unpacks to, bit-exactly: blue from the
/// low byte, then green, then red.
pub fn signature_color(signature: u32) -> (r: (u8, u8, u8))
    ensures
        r.0 == (signature >> 16) & 0xff,
        r.1 == (signature >> 8) & 0xff,
        r.2 == signature & 0xff,
{
    proof {
        assert(signature & 0xff <= 0xff && (signature >> 8) & 0xff <= 0xff && ((signature >> 8)
            >> 8) & 0xff <= 0xff && ((signature >> 8) >> 8) & 0xff == (signature >> 16) & 0xff && (
        signature >> 8) & 0xffu32 == ((signature >> 8) & 0xff)) by (bit_vector);
    }
    let blue = (signature & 0xff) as u8;
    let rest = signature >> 8;
    let green = (rest & 0xff) as u8;
    let rest = rest >> 8;
    let red = (rest & 0xff) as u8;
    (red, green, blue)
}

/// A read-only snapshot of one live agent, for rendering.
pub struct Accessor {
    /// The agent's position.
    pub coordinate: Coordinate,
    /// The agent's heading.
    pub direction: Direction,
    /// The agent's genome signature, the colour key.
    pub signature: u32,
}

impl Accessor {
    /// The agent's position.
    pub fn coordinate(&self) -> (r: Coordinate)
        ensures
            r == self.coordinate,
    {
        self.coordinate
    }

    /// The agent's heading.
    pub fn direction(&self) -> (r: Direction)
        ensures
            r == self.direction,
    {
        self.direction
    }

    /// The agent's genome signature.
    pub fn signature(&self) -> (r: u32)
        ensures
            r == self.signature,
    {
        self.signature
    }
}

/// A population of creatures in a world.
pub struct Simulation {
    world: World,
    boops: Vec<Boop>,
    hidden_neurons: u8,
}

impl Simulation {
    /// The world, at the specification level.
    pub closed spec fn world_spec(self) -> World {
        self.world
    }

    /// The population, at the specification level.
    pub closed spec fn boops_spec(self) -> Seq<Boop> {
        self.boops@
    }

    /// The hidden-layer cardinality, at the specification level.
    pub closed spec fn hidden_spec(self) -> u8 {
        self.hidden_neurons
    }

    /// Well-formedness: a well-formed world with one position per
    /// creature, every brain well-formed, and all genomes of one equal,
    /// bounded length.
    pub open spec fn wf(self) -> bool {
        &&& self.world_spec().wf()
        &&& self.world_spec().positions().len() == self.boops_spec().len()
        &&& forall|i: int|
            0 <= i < self.boops_spec().len() ==> (#[trigger] self.boops_spec()[i]).mind.brain.wf()
        &&& forall|i: int|
            0 <= i < self.boops_spec().len() ==> (#[trigger] self.boops_spec()[i]).mind.genome@.len()
                <= 0xffff
        &&& forall|i: int, j: int|
            0 <= i < self.boops_spec().len() && 0 <= j < self.boops_spec().len() ==> (
            #[trigger] self.boops_spec()[i]).mind.genome@.len() == (
            #[trigger] self.boops_spec()[j]).mind.genome@.len()
    }

    /// A fresh simulation: `boops` creatures with random genomes of
    /// `synapses` genes each, in a random world of the given size.
    pub fn new(size: u8, boops: usize, synapses: u16, hidden_neurons: u8) -> (r: Simulation)
        requires
            1 <= size,
        ensures
            r.wf(),
            r.boops_spec().len() == boops,
            r.world_spec().size_spec() == size,
            r.hidden_spec() == hidden_neurons,
            forall|i: int|
                0 <= i < r.boops_spec().len() ==> (#[trigger] r.boops_spec()[i]).mind.genome@.len()
                    == synapses,
    {
        let world = World::new(size, boops, FOOD_POINTS);
        let mut agents: Vec<Boop> = Vec::new();
        let mut i: usize = 0;
        while i < boops
            invariant
                i <= boops,
                agents@.len() == i,
                forall|j: int|
                    0 <= j < agents@.len() ==> (#[trigger] agents@[j]).mind.brain.wf()
                        && agents@[j].mind.genome@.len() == synapses,
            decreases boops - i,
        {
            agents.push(Boop::new(synapses, hidden_neurons));
            i = i + 1;
        }
        Simulation { world, boops: agents, hidden_neurons }
    }

    /// The nominal arena size.
    pub fn size(&self) -> (r: u8)
        ensures
            r == self.world_spec().size_spec(),
    {
        self.world.size()
    }

    /// The coordinates of all food points.
    pub fn fodder(&self) -> (r: Vec<Coordinate>)
        ensures
            r@.len() == self.world_spec().food_view().len(),
            forall|i: int|
                0 <= i < r@.len() ==> #[trigger] r@[i] == self.world_spec().food_view()[i].0,
    {
        self.world.fodder()
    }

    /// A rendering snapshot of every live agent: its position, heading and
    /// colour signature.
    pub fn boops(&self) -> (r: Vec<Accessor>)
        requires
            self.wf(),
        ensures
            r@.len() == self.boops_spec().len(),
            forall|i: int|
                0 <= i < r@.len() ==> (#[trigger] r@[i]).coordinate
                    == self.world_spec().positions()[i] && r@[i].signature == xor_fold(
                    self.boops_spec()[i].mind.genome@,
                ),
    {
        let mut r: Vec<Accessor> = Vec::new();
        let mut i: usize = 0;
        while i < self.boops.len()
            invariant
                self.wf(),
                i <= self.boops_spec().len(),
                r@.len() == i,
                forall|j: int|
                    0 <= j < i ==> (#[trigger] r@[j]).coordinate
                        == self.world_spec().positions()[j] && r@[j].signature == xor_fold(
                        self.boops_spec()[j].mind.genome@,
                    ),
            decreases self.boops_spec().len() - i,
        {
            let coordinate = self.world.boop(i);
            let direction = self.boops[i].body.direction();
            let signature = self.boops[i].signature();
            r.push(Accessor { coordinate, direction, signature });
            i = i + 1;
        }
        r
    }

    /// A rendering snapshot of one agent, by its population index.
    pub fn boop(&self, index: Index) -> (r: Accessor)
        requires
            self.wf(),
            index.0 < self.boops_spec().len(),
        ensures
            r.coordinate == self.world_spec().positions()[index.0 as int],
            r.signature == xor_fold(self.boops_spec()[index.0 as int].mind.genome@),
    {
        let coordinate = self.world.boop(index.0);
        let direction = self.boops[index.0].body.direction();
        let signature = self.boops[index.0].signature();
        Accessor { coordinate, direction, signature }
    }

    /// The nearest food point to agent `i`, by euclidean distance.
    fn nearest_food(&self, i: usize) -> (r: Option<Coordinate>)
        requires
            self.wf(),
            i < self.boops_spec().len(),
        ensures
            (r is Some) == (self.world_spec().food_view().len() > 0),
            r matches Some(f) ==> (exists|fi: int|
                0 <= fi < self.world_spec().food_view().len() && (
                #[trigger] self.world_spec().food_view()[fi]).0 == f) && in_arena_food(f, *self)
                && (forall|fj: int|
                0 <= fj < self.world_spec().food_view().len() ==> dist2_spec(
                    f@,
                    self.world_spec().positions()[i as int]@,
                ) <= dist2_spec(
                    (#[trigger] self.world_spec().food_view()[fj]).0@,
                    self.world_spec().positions()[i as int]@,
                )),
    {
        let pos = self.world.boop(i);
        let food = self.world.fodder();
        if food.len() == 0 {
            return None;
        }
        proof {
            assert(in_arena_food(food@[0], *self)) by {
                assert(food@[0] == self.world_spec().food_view()[0].0);
            }
        }
        let mut best = food[0];
        let mut best_d2 = best.dist2(pos);
        let mut k: usize = 1;
        while k < food.len()
            invariant
                self.wf(),
                i < self.boops_spec().len(),
                pos == self.world_spec().positions()[i as int],
                food@.len() == self.world_spec().food_view().len(),
                forall|j: int|
                    0 <= j < food@.len() ==> #[trigger] food@[j]
                        == self.world_spec().food_view()[j].0,
                k <= food@.len(),
                exists|fi: int| 0 <= fi < food@.len() && #[trigger] food@[fi] == best,
                in_arena_food(best, *self),
                best_d2 == dist2_spec(best@, pos@),
                forall|fj: int|
                    0 <= fj < k ==> best_d2 <= dist2_spec((#[trigger] food@[fj])@, pos@),
            decreases food@.len() - k,
        {
            proof {
                assert(in_arena_food(food@[k as int], *self)) by {
                    assert(food@[k as int] == self.world_spec().food_view()[k as int].0);
                }
            }
            let cand = food[k];
            let d2 = cand.dist2(pos);
            if d2 < best_d2 {
                best = cand;
                best_d2 = d2;
            }
            k = k + 1;
        }
        proof {
            assert forall|fj: int|
                0 <= fj < self.world_spec().food_view().len() implies dist2_spec(best@, pos@)
                <= dist2_spec((self.world_spec().food_view()[fj]).0@, pos@) by {
                assert(food@[fj] == self.world_spec().food_view()[fj].0);
            }
        }
        Some(best)
    }

    /// The sensor readings of agent `i`, one per input neuron of its
    /// brain, in arena order.
    fn gather_senses(&self, i: usize) -> (r: Vec<i64>)
        requires
            self.wf(),
            i < self.boops_spec().len(),
        ensures
            r@.len() == self.boops_spec()[i as int].mind.brain.inputs@.len(),
            forall|j: int|
                0 <= j < r@.len() ==> sense_pinned(
                    input_of(self.boops_spec()[i as int].mind.brain.inputs@[j].slot),
                    self.boops_spec()[i as int].body.direction_spec(),
                    self.world_spec().food_view().len() as int,
                    #[trigger] r@[j],
                ),
            forall|j: int| 0 <= j < r@.len() ==> 0 <= #[trigger] r@[j] <= ONE,
    {
        let slots = self.boops[i].mind.brain.input_slots();
        let mut senses: Vec<i64> = Vec::new();
        let mut k: usize = 0;
        while k < slots.len()
            invariant
                self.wf(),
                i < self.boops_spec().len(),
                k <= slots@.len(),
                slots@.len() == self.boops_spec()[i as int].mind.brain.inputs@.len(),
                forall|j: int|
                    0 <= j < slots@.len() ==> #[trigger] slots@[j]
                        == self.boops_spec()[i as int].mind.brain.inputs@[j].slot,
                senses@.len() == k,
                forall|j: int|
                    0 <= j < k ==> sense_pinned(
                        input_of(self.boops_spec()[i as int].mind.brain.inputs@[j].slot),
                        self.boops_spec()[i as int].body.direction_spec(),
                        self.world_spec().food_view().len() as int,
                        #[trigger] senses@[j],
                    ),
                forall|j: int| 0 <= j < k ==> 0 <= #[trigger] senses@[j] <= ONE,
            decreases slots@.len() - k,
        {
            let v = match Input::from(slots[k]) {
                Some(input) => input.sense(self, i).value(),
                None => 0,
            };
            proof {
                assert(sense_pinned(
                    input_of(slots@[k as int]),
                    self.boops_spec()[i as int].body.direction_spec(),
                    self.world_spec().food_view().len() as int,
                    v,
                ));
            }
            senses.push(v);
            k = k + 1;
        }
        senses
    }

    /// One tick: each agent in turn senses the world through its input
    /// neurons, evaluates its brain, and acts — turning, advancing with
    /// collision avoidance, or idling. An agent acting later in the pass
    /// observes the already-updated positions of agents that acted before
    /// it: no cohort snapshot is taken. The whole pass is pinned by
    /// [`tick_outcome`]: there are per-agent sensor readings — bounded, and
    /// fixed wherever a sensor is deterministic — whose sense-decide-act
    /// fold yields exactly the final positions, headings and brain caches.
    pub fn step(&mut self)
        requires
            old(self).wf(),
        ensures
            final(self).wf(),
            final(self).boops_spec().len() == old(self).boops_spec().len(),
            final(self).world_spec().size_spec() == old(self).world_spec().size_spec(),
            final(self).hidden_spec() == old(self).hidden_spec(),
            final(self).world_spec().food_view() == old(self).world_spec().food_view(),
            forall|i: int|
                0 <= i < old(self).boops_spec().len() ==> (#[trigger] final(self).boops_spec()[i]).mind.genome@ == old(self).boops_spec()[i].mind.genome@,
            exists|sensed: Seq<Seq<i64>>| #[trigger] tick_outcome(*old(self), *final(self), sensed),
    {
        let ghost boops_pre = old(self).boops_spec();
        let ghost views_pre = views_of(old(self).world_spec().positions());
        let ghost headings_pre = headings_of(boops_pre);
        let ghost max = limit_of(old(self).world_spec().size_spec());
        let ghost mut sensed_acc: Seq<Seq<i64>> = Seq::empty();
        let count = self.boops.len();
        let mut i: usize = 0;
        while i < count
            invariant
                self.wf(),
                count == self.boops_spec().len(),
                i <= count,
                old(self).wf(),
                boops_pre == old(self).boops_spec(),
                boops_pre.len() == count,
                views_pre == views_of(old(self).world_spec().positions()),
                views_pre.len() == count,
                headings_pre == headings_of(boops_pre),
                max == limit_of(old(self).world_spec().size_spec()),
                self.boops_spec().len() == old(self).boops_spec().len(),
                self.world_spec().size_spec() == old(self).world_spec().size_spec(),
                self.hidden_spec() == old(self).hidden_spec(),
                self.world_spec().food_view() == old(self).world_spec().food_view(),
                sensed_acc.len() == i,
                forall|j: int|
                    i <= j < count ==> #[trigger] self.boops_spec()[j] == old(self).boops_spec()[j],
                forall|j: int|
                    0 <= j < count ==> (#[trigger] self.boops_spec()[j]).mind.genome@ == old(self).boops_spec()[j].mind.genome@,
                forall|j: int|
                    0 <= j < count ==> (#[trigger] self.boops_spec()[j]).body.energy_spec() == old(self).boops_spec()[j].body.energy_spec(),
                forall|j: int|
                    0 <= j < i ==> (#[trigger] sensed_acc[j]).len()
                        == boops_pre[j].mind.brain.inputs@.len(),
                forall|j: int, l: int|
                    #![trigger sensed_acc[j][l]]
                    0 <= j < i && 0 <= l < sensed_acc[j].len() ==> sense_pinned(
                        input_of(boops_pre[j].mind.brain.inputs@[l].slot),
                        boops_pre[j].body.direction_spec(),
                        old(self).world_spec().food_view().len() as int,
                        sensed_acc[j][l],
                    ),
                forall|j: int|
                    0 <= j < i ==> state_of(
                        (#[trigger] self.boops_spec()[j]).mind.brain.inputs@,
                        self.boops_spec()[j].mind.brain.hiddens@,
                    ) == agent_run(boops_pre[j].mind.brain, sensed_acc[j]).1,
                ({
                    let run = step_prefix(
                        boops_pre,
                        views_pre,
                        headings_pre,
                        sensed_acc,
                        i as int,
                        max,
                    );
                    views_of(self.world_spec().positions()) == run.0 && (forall|j: int|
                        0 <= j < count ==> (#[trigger] self.boops_spec()[j]).body.direction_spec()
                            == run.1[j])
                }),
            decreases count - i,
        {
            let ghost run_before = step_prefix(boops_pre, views_pre, headings_pre, sensed_acc, i as int, max);
            let ghost boops_head = self.boops_spec();
            let ghost pre_positions = views_of(self.world_spec().positions());
            let ghost pre_heading = self.boops_spec()[i as int].body.direction_spec();
            let senses = self.gather_senses(i);
            proof {
                let sensed_before = sensed_acc;
                sensed_acc = sensed_acc.push(senses@);
                assert(sensed_acc[i as int] == senses@);
                lemma_step_prefix_extend(
                    boops_pre,
                    views_pre,
                    headings_pre,
                    sensed_before,
                    senses@,
                    i as int,
                    max,
                );
                assert(step_prefix(boops_pre, views_pre, headings_pre, sensed_acc, i as int, max)
                    == run_before);
            }
            let mut agent = Boop::new(0, 0);
            self.boops.set_and_swap(i, &mut agent);
            let ghost swapped = self.boops@;
            let ghost brain_pre = agent.mind.brain;
            let ghost energy_pre = agent.body.energy_spec();
            let actions = agent.mind.brain.stimulus(&senses);
            proof {
                assert forall|k: int| 0 <= k < actions@.len() implies #[trigger] actions@[k]
                    == brain_outs(brain_pre, senses@)[k] by {
                    assert(actions@[k].1 as int == agent_run(brain_pre, senses@).0[k]);
                }
                assert(actions@ =~= brain_outs(brain_pre, senses@));
            }
            let mut k: usize = 0;
            while k < actions.len()
                invariant
                    self.world_spec().wf(),
                    self.boops@ == swapped,
                    i < count,
                    count == self.world_spec().positions().len(),
                    max == limit_of(self.world_spec().size_spec()),
                    self.world_spec().size_spec() == old(self).world_spec().size_spec(),
                    self.world_spec().food_view() == old(self).world_spec().food_view(),
                    self.hidden_spec() == old(self).hidden_spec(),
                    k <= actions@.len(),
                    actions@ == brain_outs(brain_pre, senses@),
                    forall|j: int|
                        0 <= j < actions@.len() ==> 0 <= (#[trigger] actions@[j]).1 <= ONE,
                    agent.mind.genome@ == old(self).boops_spec()[i as int].mind.genome@,
                    agent.mind.brain.wf(),
                    agent.body.energy_spec() == energy_pre,
                    state_of(agent.mind.brain.inputs@, agent.mind.brain.hiddens@) == agent_run(
                        brain_pre,
                        senses@,
                    ).1,
                    ({
                        let acted = act_prefix(
                            pre_positions,
                            pre_heading,
                            i as int,
                            actions@,
                            k as int,
                            max,
                        );
                        views_of(self.world_spec().positions()) == acted.0
                            && agent.body.direction_spec() == acted.1
                    }),
                decreases actions@.len() - k,
            {
                let ghost acted_before = act_prefix(pre_positions, pre_heading, i as int, actions@, k as int, max);
                let (slot, stimulus) = actions[k];
                proof {
                    assert(actions@[k as int] == (slot, stimulus));
                }
                match Output::from(slot) {
                    Some(output) => {
                        let ghost world_before = views_of(self.world_spec().positions());
                        output.act(&mut self.world, &mut agent.body, i, stimulus);
                        proof {
                            if output is Advance {
                                assert(views_of(self.world_spec().positions())
                                    =~= world_before.update(
                                    i as int,
                                    advance_target(
                                        world_before,
                                        i as int,
                                        acted_before.1,
                                        stimulus as int,
                                        max,
                                    ),
                                ));
                            } else {
                                assert(views_of(self.world_spec().positions()) =~= world_before);
                            }
                        }
                    },
                    None => {},
                }
                k = k + 1;
            }
            self.boops[i] = agent;
            proof {
                assert(brain_pre == boops_pre[i as int].mind.brain);
                assert(headings_pre.len() == count);
                lemma_step_prefix_len(boops_pre, views_pre, headings_pre, sensed_acc, i as int, max);
                let ticked = agent_tick(
                    brain_pre,
                    run_before.0,
                    run_before.1[i as int],
                    i as int,
                    senses@,
                    max,
                );
                let run_next = step_prefix(
                    boops_pre,
                    views_pre,
                    headings_pre,
                    sensed_acc,
                    i as int + 1,
                    max,
                );
                assert(run_next == (ticked.0, run_before.1.update(i as int, ticked.1)));
                assert(pre_positions == run_before.0);
                assert(pre_heading == run_before.1[i as int]);
                assert(views_of(self.world_spec().positions()) == ticked.0);
                assert(self.boops_spec()[i as int].body.direction_spec() == ticked.1);
                assert forall|j: int| 0 <= j < count implies (#[trigger] self.boops_spec()[j]).mind.genome@
                    == old(self).boops_spec()[j].mind.genome@ by {
                    if j != i {
                        assert(self.boops_spec()[j] == swapped[j]);
                    }
                }
                assert forall|j: int| 0 <= j < count implies (#[trigger] self.boops_spec()[j]).body.energy_spec()
                    == old(self).boops_spec()[j].body.energy_spec() by {
                    if j != i {
                        assert(self.boops_spec()[j] == swapped[j]);
                    }
                }
                assert forall|j: int| 0 <= j < count implies (#[trigger] self.boops_spec()[j]).body.direction_spec()
                    == run_next.1[j] by {
                    if j != i {
                        assert(swapped[j] == boops_head[j]);
                        assert(self.boops_spec()[j] == boops_head[j]);
                        assert(boops_head[j].body.direction_spec() == run_before.1[j]);
                        assert(run_next.1[j] == run_before.1[j]);
                    }
                }
            }
            i = i + 1;
        }
        proof {
            assert(tick_outcome(*old(self), *self, sensed_acc));
        }
    }

    /// A generation boundary: the agents standing on food survive and
    /// breed, at random pairings, a full replacement population in a fresh
    /// world; with no survivor the run ends as reported extinction.
    pub fn next_generation(&mut self) -> (r: bool)
        requires
            old(self).wf(),
        ensures
            final(self).wf(),
            final(self).hidden_spec() == old(self).hidden_spec(),
            r == exists|i: int|
                0 <= i < old(self).boops_spec().len() && eats_at(old(self).world_spec(), i),
            !r ==> *final(self) == *old(self),
            r ==> final(self).world_spec().food_view().len() == FOOD_POINTS && (forall|fi: int|
                0 <= fi < FOOD_POINTS ==> (#[trigger] final(self).world_spec().food_view()[fi]).1
                    == 255),
            r ==> forall|c: int|
                0 <= c < final(self).boops_spec().len() ==> decodes(
                    (#[trigger] final(self).boops_spec()[c]).mind.brain,
                    final(self).boops_spec()[c].mind.genome@,
                ) && final(self).boops_spec()[c].body.energy_spec() == 255 * ONE,
            r ==> final(self).boops_spec().len() == old(self).boops_spec().len() && final(self).world_spec().size_spec() == old(self).world_spec().size_spec() && forall|c: int|
                0 <= c < final(self).boops_spec().len() ==> exists|f: int, m: int|
                    0 <= f < old(self).boops_spec().len() && 0 <= m < old(self).boops_spec().len() && eats_at(old(self).world_spec(), f) && eats_at(
                        old(self).world_spec(),
                        m,
                    ) && bred_from(
                        (#[trigger] final(self).boops_spec()[c]).mind.genome@,
                        old(self).boops_spec()[f].mind.genome@,
                        old(self).boops_spec()[m].mind.genome@,
                        old(self).hidden_spec() as u32,
                    ),
    {
        let count = self.boops.len();
        let mut survivors: Vec<usize> = Vec::new();
        let mut i: usize = 0;
        while i < count
            invariant
                self == old(self),
                self.wf(),
                count == self.boops_spec().len(),
                i <= count,
                forall|x: usize|
                    survivors@.contains(x) ==> x < count && eats_at(
                        self.world_spec(),
                        x as int,
                    ),
                (survivors@.len() == 0) == (forall|j: int|
                    0 <= j < i ==> !eats_at(self.world_spec(), j)),
            decreases count - i,
        {
            let ghost before = survivors@;
            if self.world.on_food(i) {
                survivors.push(i);
                proof {
                    assert(survivors@[before.len() as int] == i);
                    assert(survivors@.contains(i));
                    assert forall|x: usize|
                        survivors@.contains(x) implies x < count && eats_at(
                        self.world_spec(),
                        x as int,
                    ) by {
                        let k = choose|k: int| 0 <= k < survivors@.len() && survivors@[k] == x;
                        if k < before.len() {
                            assert(before[k] == x);
                            assert(before.contains(x));
                        } else {
                            assert(x == i);
                        }
                    }
                }
            }
            i = i + 1;
        }
        if survivors.len() == 0 {
            return false;
        }
        proof {
            assert(!(forall|j: int| 0 <= j < count ==> !eats_at(self.world_spec(), j)));
        }
        let ghost before_shuffle = survivors@;
        shuffle(&mut survivors);
        proof {
            before_shuffle.to_multiset_ensures();
            survivors@.to_multiset_ensures();
            assert forall|x: usize|
                survivors@.contains(x) implies x < count && eats_at(
                self.world_spec(),
                x as int,
            ) by {
                assert(survivors@.to_multiset().count(x) > 0);
                assert(before_shuffle.to_multiset().count(x) > 0);
                assert(before_shuffle.contains(x));
            }
        }
        let mut spawn: Vec<Boop> = Vec::new();
        let mut k: usize = 0;
        let ghost genome_len = self.boops_spec()[0].mind.genome@.len();
        while k < count
            invariant
                self == old(self),
                self.wf(),
                count == self.boops_spec().len(),
                count > 0,
                k <= count,
                survivors@.len() > 0,
                forall|x: usize|
                    survivors@.contains(x) ==> x < count && eats_at(
                        self.world_spec(),
                        x as int,
                    ),
                genome_len == self.boops_spec()[0].mind.genome@.len(),
                spawn@.len() == k,
                forall|c: int|
                    0 <= c < k ==> (#[trigger] spawn@[c]).mind.brain.wf()
                        && spawn@[c].mind.genome@.len() == genome_len && decodes(
                        spawn@[c].mind.brain,
                        spawn@[c].mind.genome@,
                    ) && spawn@[c].body.energy_spec() == 255 * ONE,
                forall|c: int|
                    0 <= c < k ==> exists|f: int, m: int|
                        0 <= f < count && 0 <= m < count && eats_at(self.world_spec(), f)
                            && eats_at(self.world_spec(), m) && bred_from(
                            (#[trigger] spawn@[c]).mind.genome@,
                            self.boops_spec()[f].mind.genome@,
                            self.boops_spec()[m].mind.genome@,
                            self.hidden_spec() as u32,
                        ),
            decreases count - k,
        {
            let father = choose_from(&survivors).unwrap();
            let mother = choose_from(&survivors).unwrap();
            let child = (&self.boops[father]).mate(
                &self.boops[mother],
                MUTABILITY,
                self.hidden_neurons,
            );
            spawn.push(child);
            k = k + 1;
        }
        let size = self.world.size();
        self.world = World::new(size, count, FOOD_POINTS);
        self.boops = spawn;
        true
    }
}

/// A radian value scaled by the full turn into the unit interval.
fn scale_by_turn(rad: i64) -> (r: i64)
    requires
        0 <= rad <= TAU,
    ensures
        r == rad * (ONE as int) / (TAU as int),
        0 <= r <= ONE,
{
    proof {
        assert((rad as int) * (ONE as int) <= (TAU as int) * (ONE as int)) by (nonlinear_arith)
            requires
                0 <= rad <= TAU as int,
        ;
        assert((rad as int) * (ONE as int) / (TAU as int) <= ONE as int) by (nonlinear_arith)
            requires
                0 <= (rad as int) * (ONE as int) <= (TAU as int) * (ONE as int),
                TAU as int > 0,
        ;
        assert(0 <= (rad as int) * (ONE as int) / (TAU as int)) by (nonlinear_arith)
            requires
                0 <= (rad as int) * (ONE as int),
                TAU as int > 0,
        ;
    }
    rad * ONE / TAU
}

} // verus!

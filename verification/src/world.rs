//! The continuous arena: agent coordinates clamped to the square
//! `[0, size - 1]`, radian headings wrapped into one turn, food points with
//! depletable energy, and straight-line movement with iterative,
//! collision-avoiding sub-stepping.

use vstd::prelude::*;

use crate::fixed::{abs_spec, clamp, clamp_spec, fmul, isqrt, mul_fp, ONE};
use crate::rng::random_scaled;
use crate::trig::{atan2_fp, atan2_spec, cos_fp, cos_spec, sin_fp, sin_spec, TAU};

verus! {

/// How close two agents may come: a move is cut short rather than ending
/// within this distance of another agent.
pub const BODY_RADIUS: i64 = 16384;

/// The length of one collision-avoidance sub-step.
pub const STEP_EPSILON: i64 = 4096;

/// The amount of energy one meal transfers.
pub const MEAL: u8 = 32;

/// A radian angle folded into the half-open turn `[0, TAU)` by repeated
/// correction: a full turn is the same heading as zero.
pub open spec fn wrap_rad(v: int) -> int
    decreases (if v < 0 {
        TAU as int - v
    } else {
        v
    }),
{
    if v >= TAU as int {
        wrap_rad(v - TAU as int)
    } else if v < 0 {
        wrap_rad(v + TAU as int)
    } else {
        v
    }
}

fn wrap_to_turn(v: i64) -> (r: i64)
    requires
        -0x200_0000_0000 <= v <= 0x200_0000_0000,
    ensures
        r == wrap_rad(v as int),
        0 <= r < TAU,
{
    let mut v = v;
    let ghost v0 = v as int;
    if v >= TAU {
        while v >= TAU
            invariant
                0 <= v <= 0x200_0000_0000,
                wrap_rad(v as int) == wrap_rad(v0),
            decreases v,
        {
            v = v - TAU;
        }
    } else {
        while v < 0
            invariant
                -0x200_0000_0000 <= v < TAU,
                wrap_rad(v as int) == wrap_rad(v0),
            decreases TAU - v,
        {
            v = v + TAU;
        }
    }
    v
}

/// Turning back exactly inverts turning forward, and the other way round:
/// adding an amount to a wrapped heading and subtracting it again restores
/// the heading, for any heading and any amount up to one turn.
pub proof fn lemma_turn_round_trip(d: int, a: int)
    requires
        0 <= d < TAU,
        0 <= a <= TAU,
    ensures
        wrap_rad(wrap_rad(d + a) - a) == d,
        wrap_rad(wrap_rad(d - a) + a) == d,
{
    if d + a < TAU {
        assert(wrap_rad(d + a) == d + a);
        assert(wrap_rad(d + a - a) == d);
    } else {
        assert(wrap_rad(d + a) == wrap_rad(d + a - TAU));
        assert(wrap_rad(d + a - TAU) == d + a - TAU);
        assert(wrap_rad(d - TAU) == wrap_rad(d - TAU + TAU));
        assert(wrap_rad(d) == d);
    }
    if d - a >= 0 {
        assert(wrap_rad(d - a) == d - a);
        assert(wrap_rad(d - a + a) == d);
    } else {
        assert(wrap_rad(d - a) == wrap_rad(d - a + TAU));
        assert(wrap_rad(d - a + TAU) == d - a + TAU);
        assert(wrap_rad(d - a + TAU + a) == wrap_rad(d));
        assert(wrap_rad(d) == d);
    }
}

/// A heading in fixed-point radians, kept wrapped within the half-open
/// turn `[0, TAU)`.
#[derive(Clone, Copy, Debug)]
pub struct Direction {
    rad: i64,
}

impl View for Direction {
    type V = int;

    closed spec fn view(&self) -> int {
        self.rad as int
    }
}

impl Direction {
    #[verifier::type_invariant]
    spec fn wf(self) -> bool {
        0 <= self.rad < TAU
    }

    /// A uniformly random heading, strictly inside one turn.
    pub fn random() -> (r: Direction)
        ensures
            0 <= r@ < TAU,
    {
        Direction { rad: random_scaled(TAU) }
    }

    /// The heading in fixed-point radians, within `[0, TAU)`.
    pub fn as_rad(self) -> (r: i64)
        ensures
            r == self@,
            0 <= r < TAU,
    {
        proof {
            use_type_invariant(&self);
        }
        self.rad
    }

    /// Rotate by a non-negative amount of radians, wrapping back into one
    /// turn.
    pub fn add_rad(&mut self, amount: i64)
        requires
            0 <= amount <= 0x100_0000_0000,
        ensures
            final(self)@ == wrap_rad(old(self)@ + amount),
    {
        proof {
            use_type_invariant(&*self);
        }
        self.rad = wrap_to_turn(self.rad + amount);
    }

    /// Rotate backward by a non-negative amount of radians, wrapping back
    /// into one turn.
    pub fn sub_rad(&mut self, amount: i64)
        requires
            0 <= amount <= 0x100_0000_0000,
        ensures
            final(self)@ == wrap_rad(old(self)@ - amount),
    {
        proof {
            use_type_invariant(&*self);
        }
        self.rad = wrap_to_turn(self.rad - amount);
    }

    /// The wrapped difference of two headings.
    pub fn minus(self, rhs: Direction) -> (r: Direction)
        ensures
            r@ == wrap_rad(self@ - rhs@),
    {
        proof {
            use_type_invariant(&self);
            use_type_invariant(&rhs);
        }
        Direction { rad: wrap_to_turn(self.rad - rhs.rad) }
    }
}

/// The squared euclidean distance of two points.
pub open spec fn dist2_spec(a: (int, int), b: (int, int)) -> int {
    (a.0 - b.0) * (a.0 - b.0) + (a.1 - b.1) * (a.1 - b.1)
}

/// A point lies inside the square arena `[0, max]` on both axes.
pub open spec fn in_arena(c: (int, int), max: int) -> bool {
    0 <= c.0 <= max && 0 <= c.1 <= max
}

/// A straight displacement of `amount` along the heading `dir`, each axis
/// clamped to `[0, max]` independently (the accepted quirk: an agent can
/// slide along a wall).
pub open spec fn translate_spec(c: (int, int), dir: int, amount: int, max: int) -> (int, int) {
    (
        clamp_spec(c.0 + fmul(cos_spec(dir), amount), 0, max),
        clamp_spec(c.1 + fmul(sin_spec(dir), amount), 0, max),
    )
}

/// A continuous position in the arena.
#[derive(Clone, Copy, PartialEq, Eq, Structural, Debug)]
pub struct Coordinate {
    x: i64,
    y: i64,
}

impl View for Coordinate {
    type V = (int, int);

    closed spec fn view(&self) -> (int, int) {
        (self.x as int, self.y as int)
    }
}

impl Coordinate {
    /// The point `(x, y)`.
    pub fn new(x: i64, y: i64) -> (r: Coordinate)
        ensures
            r@ == (x as int, y as int),
    {
        Coordinate { x, y }
    }

    /// A uniformly random point of the arena `[0, limit]`, strictly inside
    /// it whenever the arena has any extent.
    pub fn random(limit: i64) -> (r: Coordinate)
        requires
            0 <= limit <= 255 * ONE,
        ensures
            in_arena(r@, limit as int),
            limit > 0 ==> r@.0 < limit && r@.1 < limit,
    {
        if limit == 0 {
            Coordinate { x: 0, y: 0 }
        } else {
            Coordinate { x: random_scaled(limit), y: random_scaled(limit) }
        }
    }

    /// The horizontal component.
    pub fn x(self) -> (r: i64)
        ensures
            r == self@.0,
    {
        self.x
    }

    /// The vertical component.
    pub fn y(self) -> (r: i64)
        ensures
            r == self@.1,
    {
        self.y
    }

    /// The whole-unit column of an in-arena point.
    pub fn x_index(self) -> (r: u8)
        requires
            0 <= self@.0 <= 255 * ONE,
        ensures
            r == self@.0 / (ONE as int),
    {
        (self.x / ONE) as u8
    }

    /// The whole-unit row of an in-arena point.
    pub fn y_index(self) -> (r: u8)
        requires
            0 <= self@.1 <= 255 * ONE,
        ensures
            r == self@.1 / (ONE as int),
    {
        (self.y / ONE) as u8
    }

    /// The componentwise difference of two points.
    pub fn minus(self, rhs: Coordinate) -> (r: Coordinate)
        requires
            -0x100_0000_0000 <= self@.0 - rhs@.0 <= 0x100_0000_0000,
            -0x100_0000_0000 <= self@.1 - rhs@.1 <= 0x100_0000_0000,
        ensures
            r@ == (self@.0 - rhs@.0, self@.1 - rhs@.1),
    {
        Coordinate { x: self.x - rhs.x, y: self.y - rhs.y }
    }

    /// The squared distance to another point: exact, and the quantity the
    /// world's proximity tests compare.
    pub fn dist2(self, rhs: Coordinate) -> (r: i64)
        requires
            -0x1000_0000 <= self@.0 <= 0x1000_0000,
            -0x1000_0000 <= self@.1 <= 0x1000_0000,
            -0x1000_0000 <= rhs@.0 <= 0x1000_0000,
            -0x1000_0000 <= rhs@.1 <= 0x1000_0000,
        ensures
            r == dist2_spec(self@, rhs@),
            r >= 0,
    {
        let dx: i64 = self.x - rhs.x;
        let dy: i64 = self.y - rhs.y;
        proof {
            assert(0 <= dx * dx <= 0x2000_0000 * 0x2000_0000) by (nonlinear_arith)
                requires
                    -0x2000_0000 <= dx <= 0x2000_0000,
            ;
            assert(0 <= dy * dy <= 0x2000_0000 * 0x2000_0000) by (nonlinear_arith)
                requires
                    -0x2000_0000 <= dy <= 0x2000_0000,
            ;
        }
        dx * dx + dy * dy
    }

    /// The euclidean distance to another point, rounded down to the
    /// fixed-point grid: the greatest `r` with `r * r <= dist2`.
    pub fn distance(self, rhs: Coordinate) -> (r: i64)
        requires
            -0x1000_0000 <= self@.0 <= 0x1000_0000,
            -0x1000_0000 <= self@.1 <= 0x1000_0000,
            -0x1000_0000 <= rhs@.0 <= 0x1000_0000,
            -0x1000_0000 <= rhs@.1 <= 0x1000_0000,
        ensures
            r >= 0,
            r * r <= dist2_spec(self@, rhs@),
            dist2_spec(self@, rhs@) < (r + 1) * (r + 1),
    {
        let d2 = self.dist2(rhs);
        let root = isqrt(d2 as u64);
        proof {
            assert(root * root <= d2 as u64);
            assert(root < 0x1_0000_0000) by (nonlinear_arith)
                requires
                    root * root <= 0xffff_ffff_ffff_ffffu64,
                    (d2 as u64) < 0x8000_0000_0000_0000u64,
                    root * root <= (d2 as u64),
                    (d2 as u64) < (root + 1) * (root + 1),
            ;
        }
        root as i64
    }

    /// The bearing from `rhs` to this point, as a wrapped heading.
    pub fn dir_from(self, rhs: Coordinate) -> (r: Direction)
        requires
            -0x100_0000_0000 <= self@.0 - rhs@.0 <= 0x100_0000_0000,
            -0x100_0000_0000 <= self@.1 - rhs@.1 <= 0x100_0000_0000,
        ensures
            r@ == wrap_rad(atan2_spec(self@.1 - rhs@.1, self@.0 - rhs@.0)),
    {
        let dx: i64 = self.x - rhs.x;
        let dy: i64 = self.y - rhs.y;
        let angle = atan2_fp(dy, dx);
        Direction { rad: wrap_to_turn(angle) }
    }

    /// Displace along a heading, clamping both axes into `[0, max]`.
    pub fn translate(&mut self, dir: Direction, amount: i64, max: i64)
        requires
            0 <= amount <= 0x4000_0000,
            0 <= max <= 255 * ONE,
            -0x4000_0000 <= old(self)@.0 <= 0x4000_0000,
            -0x4000_0000 <= old(self)@.1 <= 0x4000_0000,
        ensures
            final(self)@ == translate_spec(old(self)@, dir@, amount as int, max as int),
            in_arena(final(self)@, max as int),
    {
        proof {
            use_type_invariant(&dir);
        }
        let run = cos_fp(dir.rad);
        let rise = sin_fp(dir.rad);
        let dx = mul_fp(run, amount);
        let dy = mul_fp(rise, amount);
        proof {
            assert(abs_spec(dx as int) * (ONE as int) <= (ONE as int) * (amount as int) ==> abs_spec(
                dx as int,
            ) <= amount as int) by (nonlinear_arith)
                requires
                    (ONE as int) > 0,
            ;
            assert(abs_spec(dy as int) * (ONE as int) <= (ONE as int) * (amount as int) ==> abs_spec(
                dy as int,
            ) <= amount as int) by (nonlinear_arith)
                requires
                    (ONE as int) > 0,
            ;
            assert(abs_spec(run as int) * abs_spec(amount as int) <= (ONE as int) * (
            amount as int)) by (nonlinear_arith)
                requires
                    abs_spec(run as int) <= ONE as int,
                    0 <= amount,
            ;
            assert(abs_spec(rise as int) * abs_spec(amount as int) <= (ONE as int) * (
            amount as int)) by (nonlinear_arith)
                requires
                    abs_spec(rise as int) <= ONE as int,
                    0 <= amount,
            ;
        }
        self.x = clamp(self.x + dx, 0, max);
        self.y = clamp(self.y + dy, 0, max);
    }
}


/// The arena's clamping limit: coordinates run from zero to one unit short
/// of the nominal size.
pub open spec fn limit_of(size: u8) -> int {
    (size - 1) * (ONE as int)
}

/// An agent is near a food point when it is within one unit of it on the
/// horizontal axis and within one unit of euclidean distance.
pub open spec fn near_food(f: (int, int), b: (int, int)) -> bool {
    abs_spec(f.0 - b.0) < ONE as int && dist2_spec(f, b) < (ONE as int) * (ONE as int)
}

/// The view of every position in a roster.
pub open spec fn views_of(boops: Seq<Coordinate>) -> Seq<(int, int)> {
    boops.map(|j: int, c: Coordinate| c@)
}

/// Some other agent stands within `speed` plus the body radius of `pos`:
/// the move needs collision avoidance.
pub open spec fn has_obstacle(boops: Seq<(int, int)>, index: int, pos: (int, int), speed: int) -> bool {
    exists|j: int|
        0 <= j < boops.len() && j != index && dist2_spec(#[trigger] boops[j], pos) <= (speed
            + BODY_RADIUS as int) * (speed + BODY_RADIUS as int)
}

/// A candidate position keeps its distance: from every other agent it is
/// either at least the body radius away, or no closer than the move's
/// starting point already was.
pub open spec fn keeps_distance(
    boops: Seq<(int, int)>,
    index: int,
    entry: (int, int),
    cand: (int, int),
) -> bool {
    forall|j: int|
        0 <= j < boops.len() && j != index ==> dist2_spec(cand, #[trigger] boops[j]) >= (
        BODY_RADIUS as int) * (BODY_RADIUS as int) || dist2_spec(cand, boops[j]) >= dist2_spec(
            entry,
            boops[j],
        )
}

/// The iterative sub-stepping that shortens a move near another agent: one
/// sub-step at a time along the heading, stopping at the first sub-step
/// that would fail to keep its distance.
pub open spec fn substep_spec(
    boops: Seq<(int, int)>,
    index: int,
    entry: (int, int),
    current: (int, int),
    dir: int,
    remaining: int,
    max: int,
) -> (int, int)
    decreases remaining,
{
    if remaining <= 0 {
        current
    } else {
        let step = if remaining < STEP_EPSILON as int {
            remaining
        } else {
            STEP_EPSILON as int
        };
        let cand = translate_spec(current, dir, step, max);
        if !keeps_distance(boops, index, entry, cand) {
            current
        } else {
            substep_spec(boops, index, entry, cand, dir, remaining - step, max)
        }
    }
}

/// Where a commanded move ends: one straight clamped displacement when no
/// other agent stands within reach, else the sub-stepped, collision-guarded
/// path.
pub open spec fn advance_target(
    boops: Seq<(int, int)>,
    index: int,
    dir: int,
    speed: int,
    max: int,
) -> (int, int) {
    let entry = boops[index];
    if has_obstacle(boops, index, entry, speed) {
        substep_spec(boops, index, entry, entry, dir, speed, max)
    } else {
        translate_spec(entry, dir, speed, max)
    }
}

/// The continuous world: the positions of the living agents and the food
/// points with their remaining energy, all inside a square arena.
pub struct World {
    size: u8,
    boops: Vec<Coordinate>,
    food: Vec<(Coordinate, u8)>,
}

impl World {
    /// The agent positions, at the specification level.
    pub closed spec fn positions(self) -> Seq<Coordinate> {
        self.boops@
    }

    /// The food points and their energy, at the specification level.
    pub closed spec fn food_view(self) -> Seq<(Coordinate, u8)> {
        self.food@
    }

    /// The nominal arena size, at the specification level.
    pub closed spec fn size_spec(self) -> u8 {
        self.size
    }

    /// Well-formedness: a positive size, and every coordinate inside the
    /// arena.
    pub open spec fn wf(self) -> bool {
        &&& 1 <= self.size_spec()
        &&& forall|i: int|
            0 <= i < self.positions().len() ==> in_arena(
                (#[trigger] self.positions()[i])@,
                limit_of(self.size_spec()),
            )
        &&& forall|i: int|
            0 <= i < self.food_view().len() ==> in_arena(
                (#[trigger] self.food_view()[i]).0@,
                limit_of(self.size_spec()),
            )
    }

    /// A fresh world: `count` agents and `food_count` full food points, all
    /// placed at random inside the arena.
    pub fn new(size: u8, count: usize, food_count: usize) -> (r: World)
        requires
            1 <= size,
        ensures
            r.wf(),
            r.size_spec() == size,
            r.positions().len() == count,
            r.food_view().len() == food_count,
            forall|i: int| 0 <= i < food_count ==> (#[trigger] r.food_view()[i]).1 == 255,
    {
        let limit: i64 = (size as i64 - 1) * ONE;
        let mut boops: Vec<Coordinate> = Vec::new();
        let mut i: usize = 0;
        while i < count
            invariant
                i <= count,
                boops@.len() == i,
                1 <= size,
                limit == limit_of(size),
                0 <= limit <= 255 * ONE,
                forall|j: int|
                    0 <= j < boops@.len() ==> in_arena((#[trigger] boops@[j])@, limit as int),
            decreases count - i,
        {
            boops.push(Coordinate::random(limit));
            i = i + 1;
        }
        let mut food: Vec<(Coordinate, u8)> = Vec::new();
        let mut k: usize = 0;
        while k < food_count
            invariant
                k <= food_count,
                food@.len() == k,
                1 <= size,
                limit == limit_of(size),
                0 <= limit <= 255 * ONE,
                forall|j: int|
                    0 <= j < food@.len() ==> in_arena((#[trigger] food@[j]).0@, limit as int)
                        && food@[j].1 == 255,
            decreases food_count - k,
        {
            food.push((Coordinate::random(limit), 255));
            k = k + 1;
        }
        World { size, boops, food }
    }

    /// A world with a chosen layout: the deterministic counterpart of
    /// [`World::new`], for staging exact scenes.
    pub fn from_parts(size: u8, boops: Vec<Coordinate>, food: Vec<(Coordinate, u8)>) -> (r: World)
        requires
            1 <= size,
            forall|i: int| 0 <= i < boops@.len() ==> in_arena((#[trigger] boops@[i])@, limit_of(size)),
            forall|i: int| 0 <= i < food@.len() ==> in_arena((#[trigger] food@[i]).0@, limit_of(size)),
        ensures
            r.wf(),
            r.size_spec() == size,
            r.positions() == boops@,
            r.food_view() == food@,
    {
        World { size, boops, food }
    }

    /// The nominal arena size.
    pub fn size(&self) -> (r: u8)
        ensures
            r == self.size_spec(),
    {
        self.size
    }

    /// The position of one agent.
    pub fn boop(&self, index: usize) -> (r: Coordinate)
        requires
            index < self.positions().len(),
        ensures
            r == self.positions()[index as int],
    {
        self.boops[index]
    }

    /// The coordinates of all food points, in storage order.
    pub fn fodder(&self) -> (r: Vec<Coordinate>)
        ensures
            r@.len() == self.food_view().len(),
            forall|i: int|
                0 <= i < r@.len() ==> #[trigger] r@[i] == self.food_view()[i].0,
    {
        let mut r: Vec<Coordinate> = Vec::new();
        let mut i: usize = 0;
        while i < self.food.len()
            invariant
                i <= self.food@.len(),
                r@.len() == i,
                forall|j: int| 0 <= j < i ==> #[trigger] r@[j] == self.food@[j].0,
            decreases self.food@.len() - i,
        {
            r.push(self.food[i].0);
            i = i + 1;
        }
        r
    }

    /// Whether one agent stands near some food point: the cheap
    /// reproduction-eligibility test.
    pub fn on_food(&self, index: usize) -> (r: bool)
        requires
            self.wf(),
            index < self.positions().len(),
        ensures
            r == exists|i: int|
                0 <= i < self.food_view().len() && near_food(
                    (#[trigger] self.food_view()[i]).0@,
                    self.positions()[index as int]@,
                ),
    {
        let pos = self.boops[index];
        let mut i: usize = 0;
        while i < self.food.len()
            invariant
                self.wf(),
                index < self.positions().len(),
                pos == self.positions()[index as int],
                i <= self.food@.len(),
                forall|j: int|
                    0 <= j < i ==> !near_food((#[trigger] self.food@[j]).0@, pos@),
            decreases self.food@.len() - i,
        {
            let f = self.food[i].0;
            proof {
                assert(in_arena((self.food_view()[i as int]).0@, limit_of(self.size_spec())));
                assert(in_arena((self.positions()[index as int])@, limit_of(self.size_spec())));
            }
            let dx = f.x() - pos.x();
            let dx_abs = if dx >= 0 {
                dx
            } else {
                -dx
            };
            if dx_abs < ONE && f.dist2(pos) < ONE * ONE {
                return true;
            }
            i = i + 1;
        }
        false
    }

    /// Let one agent eat: the first food point within reach transfers one
    /// meal of energy; a point that cannot cover a whole meal is emptied
    /// and relocated at random. Returns the energy transferred, or None
    /// when no food is in reach.
    pub fn eat(&mut self, index: usize) -> (r: Option<u8>)
        requires
            old(self).wf(),
            index < old(self).positions().len(),
        ensures
            final(self).wf(),
            final(self).size_spec() == old(self).size_spec(),
            final(self).positions() == old(self).positions(),
            final(self).food_view().len() == old(self).food_view().len(),
            ({
                let pos = old(self).positions()[index as int]@;
                (r is Some) == exists|i: int|
                    0 <= i < old(self).food_view().len() && near_food(
                        (#[trigger] old(self).food_view()[i]).0@,
                        pos,
                    )
            }),
            r is None ==> final(self).food_view() == old(self).food_view(),
            r is Some ==> r == Some(MEAL) && exists|i: int|
                0 <= i < old(self).food_view().len() && near_food(
                    (#[trigger] old(self).food_view()[i]).0@,
                    old(self).positions()[index as int]@,
                ) && (forall|j: int|
                    0 <= j < i ==> !near_food(
                        (#[trigger] old(self).food_view()[j]).0@,
                        old(self).positions()[index as int]@,
                    )) && (forall|j: int|
                    0 <= j < old(self).food_view().len() && j != i ==> #[trigger] final(self).food_view()[j] == old(self).food_view()[j]) && (if old(self).food_view()[i].1 <= MEAL {
                    final(self).food_view()[i].1 == 0 && in_arena(
                        final(self).food_view()[i].0@,
                        limit_of(old(self).size_spec()),
                    )
                } else {
                    final(self).food_view()[i] == (old(self).food_view()[i].0, (old(self).food_view()[i].1 - MEAL) as u8)
                }),
    {
        let pos = self.boops[index];
        let limit: i64 = (self.size as i64 - 1) * ONE;
        let mut i: usize = 0;
        while i < self.food.len()
            invariant
                self == old(self),
                self.wf(),
                index < self.positions().len(),
                pos == self.positions()[index as int],
                limit == limit_of(self.size_spec()),
                0 <= limit <= 255 * ONE,
                i <= self.food@.len(),
                forall|j: int|
                    0 <= j < i ==> !near_food((#[trigger] self.food_view()[j]).0@, pos@),
            decreases self.food@.len() - i,
        {
            let f = self.food[i].0;
            let energy = self.food[i].1;
            proof {
                assert(in_arena((self.food_view()[i as int]).0@, limit_of(self.size_spec())));
                assert(in_arena((self.positions()[index as int])@, limit_of(self.size_spec())));
            }
            let dx = f.x() - pos.x();
            let dx_abs = if dx >= 0 {
                dx
            } else {
                -dx
            };
            if dx_abs < ONE && f.dist2(pos) < ONE * ONE {
                proof {
                    assert(near_food((old(self).food_view()[i as int]).0@, pos@));
                }
                if energy <= MEAL {
                    self.food[i] = (Coordinate::random(limit), 0);
                } else {
                    self.food[i] = (f, energy - MEAL);
                }
                return Some(MEAL);
            }
            i = i + 1;
        }
        None
    }

    /// The background regeneration pass: every depleted food point refills
    /// and relocates at random.
    pub fn regenerate_food(&mut self)
        requires
            old(self).wf(),
        ensures
            final(self).wf(),
            final(self).size_spec() == old(self).size_spec(),
            final(self).positions() == old(self).positions(),
            final(self).food_view().len() == old(self).food_view().len(),
            forall|i: int|
                0 <= i < old(self).food_view().len() ==> if (#[trigger] old(self).food_view()[i]).1 == 0 {
                    final(self).food_view()[i].1 == 255 && in_arena(
                        final(self).food_view()[i].0@,
                        limit_of(old(self).size_spec()),
                    )
                } else {
                    final(self).food_view()[i] == old(self).food_view()[i]
                },
    {
        let limit: i64 = (self.size as i64 - 1) * ONE;
        let mut i: usize = 0;
        while i < self.food.len()
            invariant
                1 <= self.size_spec(),
                self.size_spec() == old(self).size_spec(),
                self.positions() == old(self).positions(),
                forall|j: int|
                    0 <= j < self.positions().len() ==> in_arena(
                        (#[trigger] self.positions()[j])@,
                        limit_of(self.size_spec()),
                    ),
                limit == limit_of(self.size_spec()),
                0 <= limit <= 255 * ONE,
                i <= self.food@.len(),
                self.food@.len() == old(self).food_view().len(),
                forall|j: int|
                    i <= j < self.food@.len() ==> #[trigger] self.food@[j] == old(self).food_view()[j],
                forall|j: int|
                    0 <= j < i ==> if (#[trigger] old(self).food_view()[j]).1 == 0 {
                        self.food@[j].1 == 255 && in_arena(
                            self.food@[j].0@,
                            limit_of(self.size_spec()),
                        )
                    } else {
                        self.food@[j] == old(self).food_view()[j]
                    },
                forall|j: int|
                    0 <= j < self.food@.len() ==> in_arena(
                        (#[trigger] self.food@[j]).0@,
                        limit_of(self.size_spec()),
                    ),
            decreases self.food@.len() - i,
        {
            if self.food[i].1 == 0 {
                self.food[i] = (Coordinate::random(limit), 255);
            }
            i = i + 1;
        }
    }

    /// Move one agent `speed` along `direction`. When no other agent
    /// stands within `speed` plus the body radius, the move is one straight
    /// clamped displacement; otherwise it is taken in sub-steps, stopping
    /// at the first sub-step that would bring the agent within the body
    /// radius of any other agent that was farther than that before.
    pub fn advance(&mut self, index: usize, speed: i64, direction: Direction)
        requires
            old(self).wf(),
            index < old(self).positions().len(),
            0 <= speed <= 255 * ONE,
        ensures
            final(self).wf(),
            final(self).size_spec() == old(self).size_spec(),
            final(self).food_view() == old(self).food_view(),
            final(self).positions().len() == old(self).positions().len(),
            forall|j: int|
                0 <= j < old(self).positions().len() && j != index ==> #[trigger] final(self).positions()[j] == old(self).positions()[j],
            ({
                let views = views_of(old(self).positions());
                let entry = views[index as int];
                let end = final(self).positions()[index as int]@;
                end == advance_target(
                    views,
                    index as int,
                    direction@,
                    speed as int,
                    limit_of(old(self).size_spec()),
                ) && (has_obstacle(views, index as int, entry, speed as int) ==> keeps_distance(
                    views,
                    index as int,
                    entry,
                    end,
                ))
            }),
    {
        let ghost boops0 = self.boops@;
        let ghost views0 = views_of(boops0);
        let pos = self.boops[index];
        let limit: i64 = (self.size as i64 - 1) * ONE;
        let reach = speed + BODY_RADIUS;
        let mut blocked = false;
        let mut j: usize = 0;
        while j < self.boops.len()
            invariant
                self == old(self),
                boops0 == self.boops@,
                self.wf(),
                index < boops0.len(),
                pos == boops0[index as int],
                reach == speed + BODY_RADIUS,
                0 <= speed <= 255 * ONE,
                j <= boops0.len(),
                views0 == views_of(boops0),
                blocked == exists|p: int|
                    0 <= p < j && p != index && dist2_spec(#[trigger] views0[p], pos@) <= (
                    reach as int) * (reach as int),
            decreases boops0.len() - j,
        {
            if j != index {
                proof {
                    assert(in_arena((self.positions()[j as int])@, limit_of(self.size_spec())));
                    assert(in_arena((self.positions()[index as int])@, limit_of(self.size_spec())));
                }
                let other = self.boops[j];
                let d2 = other.dist2(pos);
                proof {
                    assert(0 <= (reach as int) * (reach as int) <= 0x100_0000 * 0x100_0000)
                        by (nonlinear_arith)
                        requires
                            0 <= reach <= 0x100_0000,
                    ;
                }
                proof {
                    assert(views0[j as int] == boops0[j as int]@);
                }
                if d2 <= reach * reach {
                    blocked = true;
                }
            }
            j = j + 1;
        }
        if !blocked {
            let mut next = pos;
            next.translate(direction, speed, limit);
            self.boops[index] = next;
            proof {
                assert forall|i2: int| 0 <= i2 < self.positions().len() implies in_arena(
                    (#[trigger] self.positions()[i2])@,
                    limit_of(self.size_spec()),
                ) by {
                    if i2 != index {
                        assert(self.positions()[i2] == boops0[i2]);
                    }
                }
            }
        } else {
            let mut current = pos;
            let mut remaining = speed;
            proof {
                assert(in_arena(pos@, limit as int));
            }
            while remaining > 0
                invariant
                    boops0 == self.boops@,
                    views0 == views_of(boops0),
                    self.wf(),
                    self == old(self),
                    index < boops0.len(),
                    pos == boops0[index as int],
                    limit == limit_of(self.size_spec()),
                    0 <= limit <= 255 * ONE,
                    0 <= remaining <= speed <= 255 * ONE,
                    in_arena(current@, limit as int),
                    keeps_distance(views0, index as int, pos@, current@),
                    substep_spec(
                        views0,
                        index as int,
                        pos@,
                        current@,
                        direction@,
                        remaining as int,
                        limit as int,
                    ) == substep_spec(
                        views0,
                        index as int,
                        pos@,
                        pos@,
                        direction@,
                        speed as int,
                        limit as int,
                    ),
                ensures
                    boops0 == self.boops@,
                    self == old(self),
                    in_arena(current@, limit as int),
                    keeps_distance(views0, index as int, pos@, current@),
                    substep_spec(
                        views0,
                        index as int,
                        pos@,
                        pos@,
                        direction@,
                        speed as int,
                        limit as int,
                    ) == current@,
                decreases remaining,
            {
                let step = if remaining < STEP_EPSILON {
                    remaining
                } else {
                    STEP_EPSILON
                };
                let mut cand = current;
                cand.translate(direction, step, limit);
                if !self.step_clear(index, pos, cand) {
                    proof {
                        assert(substep_spec(
                            views0,
                            index as int,
                            pos@,
                            current@,
                            direction@,
                            remaining as int,
                            limit as int,
                        ) == current@);
                    }
                    break ;
                }
                current = cand;
                remaining = remaining - step;
            }
            self.boops[index] = current;
            proof {
                assert forall|i2: int| 0 <= i2 < self.positions().len() implies in_arena(
                    (#[trigger] self.positions()[i2])@,
                    limit_of(self.size_spec()),
                ) by {
                    if i2 != index {
                        assert(self.positions()[i2] == boops0[i2]);
                    }
                }
            }
        }
        proof {
            assert(self.food_view() == old(self).food_view());
            assert forall|i2: int| 0 <= i2 < self.food_view().len() implies in_arena(
                (#[trigger] self.food_view()[i2]).0@,
                limit_of(self.size_spec()),
            ) by {
                assert(self.food_view()[i2] == old(self).food_view()[i2]);
                assert(in_arena(old(self).food_view()[i2].0@, limit_of(old(self).size_spec())));
            }
        }
    }

    /// Whether a candidate position keeps its distance from every other
    /// agent.
    fn step_clear(&self, index: usize, entry: Coordinate, cand: Coordinate) -> (r: bool)
        requires
            self.wf(),
            index < self.positions().len(),
            -0x1000_0000 <= entry@.0 <= 0x1000_0000,
            -0x1000_0000 <= entry@.1 <= 0x1000_0000,
            -0x1000_0000 <= cand@.0 <= 0x1000_0000,
            -0x1000_0000 <= cand@.1 <= 0x1000_0000,
        ensures
            r == keeps_distance(views_of(self.positions()), index as int, entry@, cand@),
    {
        let mut j: usize = 0;
        while j < self.boops.len()
            invariant
                self.wf(),
                index < self.positions().len(),
                -0x1000_0000 <= entry@.0 <= 0x1000_0000,
                -0x1000_0000 <= entry@.1 <= 0x1000_0000,
                -0x1000_0000 <= cand@.0 <= 0x1000_0000,
                -0x1000_0000 <= cand@.1 <= 0x1000_0000,
                j <= self.positions().len(),
                forall|p: int|
                    0 <= p < j && p != index ==> dist2_spec(
                        cand@,
                        #[trigger] views_of(self.positions())[p],
                    ) >= (BODY_RADIUS as int) * (BODY_RADIUS as int) || dist2_spec(
                        cand@,
                        views_of(self.positions())[p],
                    ) >= dist2_spec(entry@, views_of(self.positions())[p]),
            decreases self.positions().len() - j,
        {
            if j != index {
                proof {
                    assert(in_arena((self.positions()[j as int])@, limit_of(self.size_spec())));
                    assert(views_of(self.positions())[j as int] == self.positions()[j as int]@);
                    assert((BODY_RADIUS as int) * (BODY_RADIUS as int) == 0x1000_0000)
                        by (nonlinear_arith);
                }
                let other = self.boops[j];
                let to_cand = cand.dist2(other);
                let to_entry = entry.dist2(other);
                if to_cand < BODY_RADIUS * BODY_RADIUS && to_cand < to_entry {
                    return false;
                }
            }
            j = j + 1;
        }
        true
    }
}

} // verus!

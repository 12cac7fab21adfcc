//! Tests of the continuous arena: coordinate arithmetic, bearings, wrapped
//! headings, clamped movement, collision avoidance, and food.

use geny::fixed::ONE;
use geny::trig::{HALF_PI, PI, TAU};
use geny::world::{Coordinate, Direction, World, BODY_RADIUS, MEAL};

#[test]
fn manhattan() {
    for _ in 0..10 {
        let ax = (rand::random::<u16>() as i64) * 16;
        let ay = (rand::random::<u16>() as i64) * 16;
        let bx = (rand::random::<u16>() as i64) * 16;
        let by = (rand::random::<u16>() as i64) * 16;
        let manhattan = Coordinate::new(ax, ay).minus(Coordinate::new(bx, by));
        assert!(manhattan.x() == ax - bx);
        assert!(manhattan.y() == ay - by);
    }
}

#[test]
fn dir_from() {
    let c1 = Coordinate::new(0, 0);
    assert!(Coordinate::new(ONE, 0).dir_from(c1).as_rad() == 0);
    assert!(Coordinate::new(0, ONE).dir_from(c1).as_rad() == HALF_PI);
    assert!(
        Coordinate::new(0, ONE)
            .dir_from(c1)
            .minus(Coordinate::new(0, ONE).dir_from(c1))
            .as_rad()
            == 0
    );
}

#[test]
fn bearings_cover_the_quadrants() {
    let origin = Coordinate::new(0, 0);
    assert_eq!(Coordinate::new(-ONE, 0).dir_from(origin).as_rad(), PI);
    assert_eq!(Coordinate::new(0, -ONE).dir_from(origin).as_rad(), TAU - HALF_PI);
    // A diagonal bearing lies strictly inside its quadrant.
    let diagonal = Coordinate::new(ONE, ONE).dir_from(origin).as_rad();
    assert!(0 < diagonal && diagonal < HALF_PI);
}

#[test]
fn heading_turns_invert() {
    let mut d = Direction::random();
    let before = d.as_rad();
    d.add_rad(HALF_PI);
    d.sub_rad(HALF_PI);
    assert_eq!(d.as_rad(), before);
    d.sub_rad(TAU - 1);
    d.add_rad(TAU - 1);
    assert_eq!(d.as_rad(), before);
}

#[test]
fn full_turn_aliases_to_zero() {
    // The wheel is half-open: adding one full turn lands back on the same
    // heading, never on the alias TAU.
    let mut d = Coordinate::new(ONE, 0).dir_from(Coordinate::new(0, 0));
    assert_eq!(d.as_rad(), 0);
    d.add_rad(TAU);
    assert_eq!(d.as_rad(), 0);
    let mut e = Coordinate::new(0, ONE).dir_from(Coordinate::new(0, 0));
    e.add_rad(TAU - HALF_PI);
    assert_eq!(e.as_rad(), 0);
    assert!(Direction::random().as_rad() < TAU);
}

#[test]
fn four_quarter_turns_return() {
    // Four quarter turns make one full turn: wrapped back to the start,
    // from a zero heading as well as from a diagonal one.
    for start in [Coordinate::new(ONE, 0), Coordinate::new(ONE, ONE)] {
        let mut d = start.dir_from(Coordinate::new(0, 0));
        let before = d.as_rad();
        d.add_rad(HALF_PI);
        d.add_rad(HALF_PI);
        d.add_rad(HALF_PI);
        d.add_rad(HALF_PI);
        assert_eq!(d.as_rad(), before);
    }
}

#[test]
fn movement_clamps_at_origin() {
    // An agent at the origin commanded toward negative coordinates never
    // goes negative.
    let mut c = Coordinate::new(0, 0);
    let west = Coordinate::new(-ONE, -ONE).dir_from(Coordinate::new(0, 0));
    c.translate(west, 2 * ONE, 9 * ONE);
    assert!(c.x() >= 0);
    assert!(c.y() >= 0);
    assert_eq!(c.x(), 0);
    assert_eq!(c.y(), 0);
}

#[test]
fn movement_clamps_at_far_edge() {
    // An agent at the far edge moving outward clamps to the arena limit.
    let limit = 9 * ONE;
    let mut c = Coordinate::new(limit, limit);
    let northeast = Coordinate::new(ONE, ONE).dir_from(Coordinate::new(0, 0));
    c.translate(northeast, 2 * ONE, limit);
    assert_eq!(c.x(), limit);
    assert_eq!(c.y(), limit);
}

#[test]
fn collision_stops_short() {
    // Two agents half a unit apart in line; the trailing one commanded to
    // advance two whole units stops at least the body radius short.
    let trailing = Coordinate::new(ONE, ONE);
    let leading = Coordinate::new(ONE + ONE / 2, ONE);
    let mut world = World::from_parts(10, vec![trailing, leading], vec![]);
    let east = Coordinate::new(ONE, 0).dir_from(Coordinate::new(0, 0));
    world.advance(0, 2 * ONE, east);
    let stopped = world.boop(0);
    let gap2 = stopped.dist2(leading);
    assert!(gap2 >= BODY_RADIUS * BODY_RADIUS);
    // The leading agent has not moved.
    assert!(world.boop(1) == leading);
}

#[test]
fn free_movement_covers_the_commanded_distance() {
    let mut world = World::from_parts(10, vec![Coordinate::new(ONE, ONE)], vec![]);
    let east = Coordinate::new(ONE, 0).dir_from(Coordinate::new(0, 0));
    world.advance(0, ONE, east);
    let moved = world.boop(0);
    assert_eq!(moved.x(), 2 * ONE);
    assert_eq!(moved.y(), ONE);
}

#[test]
fn eat_transfers_one_meal() {
    let agent = Coordinate::new(ONE, ONE);
    let food = Coordinate::new(ONE + ONE / 4, ONE);
    let mut world = World::from_parts(10, vec![agent], vec![(food, 255)]);
    assert!(world.on_food(0));
    let eaten = world.eat(0);
    assert_eq!(eaten, Some(MEAL));
    // A second helping draws the counter further down.
    let eaten = world.eat(0);
    assert_eq!(eaten, Some(MEAL));
}

#[test]
fn eat_misses_distant_food() {
    let agent = Coordinate::new(ONE, ONE);
    let food = Coordinate::new(5 * ONE, 5 * ONE);
    let mut world = World::from_parts(10, vec![agent], vec![(food, 255)]);
    assert!(!world.on_food(0));
    assert_eq!(world.eat(0), None);
}

#[test]
fn on_food_is_false_without_food() {
    let world = World::from_parts(10, vec![Coordinate::new(ONE, ONE)], vec![]);
    assert!(!world.on_food(0));
}

#[test]
fn depleted_food_regenerates() {
    let agent = Coordinate::new(ONE, ONE);
    let food = Coordinate::new(ONE, ONE);
    let mut world = World::from_parts(10, vec![agent], vec![(food, MEAL)]);
    // One meal empties the point and relocates it.
    assert_eq!(world.eat(0), Some(MEAL));
    world.regenerate_food();
    // The pass refills every depleted point.
    assert_eq!(world.fodder().len(), 1);
    let replenished = World::from_parts(10, vec![agent], vec![(food, 0)]);
    let mut replenished = replenished;
    replenished.regenerate_food();
    assert_eq!(replenished.fodder().len(), 1);
}

#[test]
fn column_and_row_indices_truncate() {
    let c = Coordinate::new(3 * ONE + ONE / 2, 7 * ONE + 1);
    assert_eq!(c.x_index(), 3);
    assert_eq!(c.y_index(), 7);
}

//! Tests of the compass-wheel agent.

use geny::being::Being;
use geny::gene::Genome;
use geny::geo::Direction;

#[test]
fn turn() {
    fn turn_right(being: &mut Being) {
        let direction = being.direction();
        being.turn_right();
        match direction {
            Direction::North => assert_eq!(being.direction(), Direction::East),
            Direction::East => assert_eq!(being.direction(), Direction::South),
            Direction::South => assert_eq!(being.direction(), Direction::West),
            Direction::West => assert_eq!(being.direction(), Direction::North),
        }
    }

    fn turn_left(being: &mut Being) {
        let direction = being.direction();
        being.turn_left();
        match direction {
            Direction::North => assert_eq!(being.direction(), Direction::West),
            Direction::West => assert_eq!(being.direction(), Direction::South),
            Direction::South => assert_eq!(being.direction(), Direction::East),
            Direction::East => assert_eq!(being.direction(), Direction::North),
        }
    }

    let mut being = Being::new(&Genome::new(vec![]));

    for _ in 0..8 {
        turn_right(&mut being);
    }

    for _ in 0..16 {
        turn_left(&mut being);
    }
}

#[test]
fn four_right_turns_return() {
    let mut being = Being::new(&Genome::new(vec![]));
    let before = being.direction();
    being.turn_right();
    being.turn_right();
    being.turn_right();
    being.turn_right();
    assert_eq!(being.direction(), before);
}

#[test]
fn left_inverts_right() {
    let mut being = Being::new(&Genome::new(vec![]));
    let before = being.direction();
    being.turn_right();
    being.turn_left();
    assert_eq!(being.direction(), before);
    being.turn_left();
    being.turn_right();
    assert_eq!(being.direction(), before);
}

#[test]
fn direction_from_uses_low_bits() {
    assert_eq!(Direction::from(0), Direction::North);
    assert_eq!(Direction::from(1), Direction::East);
    assert_eq!(Direction::from(2), Direction::South);
    assert_eq!(Direction::from(3), Direction::West);
    assert_eq!(Direction::from(7), Direction::West);
    assert_eq!(Direction::from(0b100), Direction::North);
}

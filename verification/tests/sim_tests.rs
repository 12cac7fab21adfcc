//! Tests of the top-level simulation: the tick loop, generation turnover,
//! slot mappings, and the randomness helpers.

use geny::fixed::ONE;
use geny::rng::{choose_from, random_below, random_unit, shuffle};
use geny::sim::{signature_color, Index, Input, Output, Simulation};

#[test]
fn hundred_steps_stay_inside_the_arena() {
    // A small arena, a few agents, a hundred ticks: every coordinate stays
    // within the clamping limit, whatever the seeds.
    let mut simulation = Simulation::new(10, 4, 8, 2);
    for _ in 0..100 {
        simulation.step();
    }
    let limit = 9 * ONE;
    let agents = simulation.boops();
    assert_eq!(agents.len(), 4);
    for agent in agents {
        let coordinate = agent.coordinate();
        assert!(0 <= coordinate.x() && coordinate.x() <= limit);
        assert!(0 <= coordinate.y() && coordinate.y() <= limit);
    }
}

#[test]
fn one_cell_arena_always_breeds() {
    // In a one-cell arena everything sits at the origin, so every agent
    // stands on food and the generation always turns over.
    let mut simulation = Simulation::new(1, 3, 4, 1);
    assert!(simulation.next_generation());
    assert_eq!(simulation.boops().len(), 3);
}

#[test]
fn generations_preserve_population_size() {
    let mut simulation = Simulation::new(1, 5, 6, 2);
    for _ in 0..3 {
        assert!(simulation.next_generation());
        assert_eq!(simulation.boops().len(), 5);
    }
}

#[test]
fn stepping_keeps_signatures() {
    let mut simulation = Simulation::new(8, 3, 8, 2);
    let before: Vec<u32> = simulation.boops().iter().map(|a| a.signature()).collect();
    simulation.step();
    let after: Vec<u32> = simulation.boops().iter().map(|a| a.signature()).collect();
    assert_eq!(before, after);
}

#[test]
fn sensor_slots_map_and_check() {
    assert_eq!(Input::from(0), Some(Input::Direction));
    assert_eq!(Input::from(1), Some(Input::FoodDirection));
    assert_eq!(Input::from(2), Some(Input::FoodDistance));
    assert_eq!(Input::from(3), Some(Input::Unit));
    assert_eq!(Input::from(4), Some(Input::Random));
    assert_eq!(Input::from(5), None);
}

#[test]
fn actuator_slots_map_and_spike() {
    assert_eq!(Output::from(0), Some(Output::TurnLeft));
    assert_eq!(Output::from(1), Some(Output::TurnRight));
    assert_eq!(Output::from(2), Some(Output::Advance));
    assert_eq!(Output::from(3), Some(Output::Noop));
    assert_eq!(Output::from(4), None);
    assert_eq!(Output::Noop.spike(ONE), None);
    assert_eq!(Output::Advance.spike(ONE / 2), Some((Output::Advance, ONE / 2)));
    assert_eq!(Output::TurnLeft.spike(0), Some((Output::TurnLeft, 0)));
}

#[test]
fn indexed_snapshot_matches_the_roster() {
    let simulation = Simulation::new(10, 3, 4, 1);
    let roster = simulation.boops();
    for i in 0..3 {
        let one = simulation.boop(Index(i));
        assert!(one.coordinate() == roster[i].coordinate());
        assert_eq!(one.signature(), roster[i].signature());
    }
}

#[test]
fn signature_unpacks_bit_exactly() {
    assert_eq!(signature_color(0x00ff_8001), (0xff, 0x80, 0x01));
    assert_eq!(signature_color(0), (0, 0, 0));
    assert_eq!(signature_color(0xffff_ffff), (0xff, 0xff, 0xff));
    assert_eq!(signature_color(0x0102_0304), (0x02, 0x03, 0x04));
}

#[test]
fn fodder_reports_every_food_point() {
    let simulation = Simulation::new(10, 2, 4, 1);
    assert_eq!(simulation.fodder().len(), 4);
    assert_eq!(simulation.size(), 10);
}

#[test]
fn random_draws_stay_in_range() {
    for _ in 0..100 {
        let u = random_unit();
        assert!(0 <= u && u < ONE);
        let b = random_below(7);
        assert!(b < 7);
    }
}

#[test]
fn choosing_and_shuffling_keep_the_values() {
    assert_eq!(choose_from(&vec![]), None);
    let values = vec![3usize, 1, 4, 1, 5];
    for _ in 0..20 {
        let picked = choose_from(&values).unwrap();
        assert!(values.contains(&picked));
    }
    let mut shuffled = values.clone();
    shuffle(&mut shuffled);
    let mut a = values.clone();
    let mut b = shuffled.clone();
    a.sort_unstable();
    b.sort_unstable();
    assert_eq!(a, b);
}

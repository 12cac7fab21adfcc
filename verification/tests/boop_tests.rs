//! Tests of the creature layer: bodies, minds and breeding.

use geny::boop::{Body, Boop, Mind, ENERGY_CAP};
use geny::fixed::ONE;

#[test]
fn a_fresh_body_holds_a_full_byte_of_energy() {
    let body = Body::new();
    assert_eq!(body.energy(), 255 * ONE);
}

#[test]
fn draining_and_restoring_energy() {
    let mut body = Body::new();
    body.drain(55 * ONE);
    assert_eq!(body.energy(), 200 * ONE);
    body.restore_energy(55);
    assert_eq!(body.energy(), 255 * ONE);
    // The reserve is capped at sixteen full meals.
    for _ in 0..20 {
        body.restore_energy(255);
    }
    assert_eq!(body.energy(), ENERGY_CAP);
}

#[test]
fn turning_a_body_keeps_its_energy() {
    let mut body = Body::new();
    let energy = body.energy();
    body.turn_right(ONE);
    body.turn_left(ONE / 2);
    assert_eq!(body.energy(), energy);
}

#[test]
fn mating_without_mutation_is_pure_crossover() {
    let father = Boop::new(10, 3);
    let mother = Boop::new(10, 3);
    // A mutability of zero can never fire, so every child gene must come
    // from one parent or the other.
    let child = father.mate(&mother, 0, 3);
    let genome = child.mind.genome();
    assert_eq!(genome.len(), 10);
    for i in 0..10 {
        let c = genome.gene(i).bits();
        let f = father.mind.genome().gene(i).bits();
        let m = mother.mind.genome().gene(i).bits();
        assert!(c == f || c == m);
    }
}

#[test]
fn a_mind_rebuilt_from_a_genome_keeps_it() {
    let first = Mind::random(6, 2);
    let copy = geny::gene::Genome::new(
        (0..6).map(|i| first.genome().gene(i)).collect::<Vec<_>>(),
    );
    let second = Mind::from(copy);
    assert_eq!(first.genome().signature(), second.genome().signature());
}

#[test]
fn signatures_are_order_independent() {
    let a = geny::gene::Gene::new(0x1111_2222, 2);
    let b = geny::gene::Gene::new(0x3333_4444, 2);
    let forward = geny::gene::Genome::new(vec![a, b]);
    let backward = geny::gene::Genome::new(vec![b, a]);
    assert_eq!(forward.signature(), backward.signature());
}

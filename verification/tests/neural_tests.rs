//! Tests of the neuron graph: cycle-safe evaluation, slot deduplication,
//! the inert empty genome, and the saturating signal primitives.

use geny::fixed::{clamp, ONE};
use geny::gene::Genome;
use geny::neural::{Axon, Brain};
use geny::signal::{Amplifier, Linear, Signal, Tangential};
use geny::trig::tanh_fp;

#[test]
fn self_reference_uses_initial_latch() {
    // A hidden neuron fed by one sensor and by itself: the first tick must
    // read the initial (zero) latch for the self-reference, and the second
    // tick must read the first tick's value instead.
    let axons = vec![
        Axon::IntoHidden { input: 3, output: 0, synapse: Amplifier::new(ONE) },
        Axon::InterHidden { input: 0, output: 0, synapse: Amplifier::new(ONE) },
        Axon::FromHidden { input: 0, output: 0, synapse: Amplifier::new(ONE) },
    ];
    let mut brain = Brain::new(&axons);
    let sensed: i64 = ONE / 2;
    let senses = vec![sensed];

    let first = brain.stimulus(&senses);
    // First tick: the hidden aggregate sees the sensor and a zero latch.
    let hidden_first = tanh_fp(sensed + 0);
    let expected_first = clamp(tanh_fp(hidden_first), 0, ONE);
    assert_eq!(first.len(), 1);
    assert_eq!(first[0].0, 0);
    assert_eq!(first[0].1, expected_first);

    let second = brain.stimulus(&senses);
    // Second tick: the self-reference now reads the first tick's latch.
    let hidden_second = tanh_fp(sensed + hidden_first);
    let expected_second = clamp(tanh_fp(hidden_second), 0, ONE);
    assert_eq!(second.len(), 1);
    assert_eq!(second[0].1, expected_second);
    assert_ne!(first[0].1, second[0].1);
}

#[test]
fn empty_genome_is_inert() {
    let genome = Genome::new(vec![]);
    let mut brain = genome.build();
    let out = brain.stimulus(&vec![]);
    assert_eq!(out.len(), 0);
}

#[test]
fn unfed_hidden_neuron_reports_zero() {
    // A hidden neuron with no dendrites aggregates an empty set: zero.
    let axons = vec![Axon::FromHidden { input: 2, output: 1, synapse: Amplifier::new(4 * ONE) }];
    let mut brain = Brain::new(&axons);
    let out = brain.stimulus(&vec![]);
    assert_eq!(out, vec![(1u8, 0i64)]);
}

#[test]
fn duplicate_slots_share_one_neuron() {
    // Two connections naming the same sensor and actuator slots must merge
    // into one output neuron with two dendrites, not two output neurons.
    let axons = vec![
        Axon::Direct { input: 1, output: 2, synapse: Amplifier::new(ONE) },
        Axon::Direct { input: 1, output: 2, synapse: Amplifier::new(ONE) },
    ];
    let mut brain = Brain::new(&axons);
    let slots = brain.input_slots();
    assert_eq!(slots, vec![1u8]);
    let senses = vec![ONE / 4];
    let out = brain.stimulus(&senses);
    assert_eq!(out.len(), 1);
    assert_eq!(out[0].0, 2);
    // Both dendrites carry the same sensor reading at unit weight.
    let expected = clamp(tanh_fp(ONE / 4 + ONE / 4), 0, ONE);
    assert_eq!(out[0].1, expected);
}

#[test]
fn sensors_sample_once_per_tick() {
    // One sensor fanned out to two actuators: both read the same latch.
    let axons = vec![
        Axon::Direct { input: 0, output: 0, synapse: Amplifier::new(ONE) },
        Axon::Direct { input: 0, output: 1, synapse: Amplifier::new(ONE) },
    ];
    let mut brain = Brain::new(&axons);
    let senses = vec![ONE / 3];
    let out = brain.stimulus(&senses);
    assert_eq!(out.len(), 2);
    assert_eq!(out[0].1, out[1].1);
}

#[test]
fn tangential_aggregate_stays_inside_open_unit() {
    // Saturating inputs: many maximal weighted terms still aggregate to a
    // value strictly inside the open unit interval.
    let terms = vec![4 * ONE; 100];
    let r = Tangential::aggregate(&terms);
    assert!(-ONE < r && r < ONE);
    let negated = vec![-4 * ONE; 100];
    let r2 = Tangential::aggregate(&negated);
    assert!(-ONE < r2 && r2 < ONE);
    assert_eq!(Tangential::aggregate(&vec![]), 0);
    assert_eq!(Tangential::aggregate(&vec![ONE / 2]), tanh_fp(ONE / 2));
}

#[test]
fn linear_aggregate_is_capped_mean() {
    assert_eq!(Linear::aggregate(&vec![]), 0);
    assert_eq!(Linear::aggregate(&vec![ONE, 0]), ONE / 2);
    assert_eq!(Linear::aggregate(&vec![4 * ONE, 4 * ONE]), ONE);
    assert_eq!(Linear::aggregate(&vec![-4 * ONE, -4 * ONE]), -ONE);
}

#[test]
fn signal_caps_to_unit_interval() {
    assert_eq!(Signal::cap(3 * ONE).value(), ONE);
    assert_eq!(Signal::cap(-ONE).value(), 0);
    assert_eq!(Signal::cap(ONE / 2).value(), ONE / 2);
    assert_eq!(Signal::from_bool(true).value(), ONE);
    assert_eq!(Signal::from_bool(false).value(), 0);
}

#[test]
fn amplifier_caps_to_amplitude() {
    assert_eq!(Amplifier::new(10 * ONE).value(), 4 * ONE);
    assert_eq!(Amplifier::new(-10 * ONE).value(), -4 * ONE);
    assert_eq!(Amplifier::new(3 * ONE).value(), 3 * ONE);
    // Applying a weight is a truncating fixed-point product.
    assert_eq!(Amplifier::new(2 * ONE).amplify(ONE / 2), ONE);
    assert_eq!(Amplifier::new(-2 * ONE).amplify(ONE / 2), -ONE);
}

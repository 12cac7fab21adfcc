//! Tests of the packed gene encoding: clamped decoding, mutation parity,
//! crossover, and the genome signature.

use geny::fixed::ONE;
use geny::gene::{Gene, Genome};
use geny::neural::Axon;
use geny::signal::AMPLITUDE;

#[test]
fn gene_is_safe() {
    for i in 0..8 {
        for _ in 0..8 {
            let gene = Gene::new(rand::random(), i);
            let (conn_type, input, output) = Gene::dissect(gene.bits());

            if i == 0 {
                assert!(conn_type == 0);
            }

            match conn_type {
                0 => {
                    assert!(input <= 4, "{}", input);
                    assert!(output <= 3, "{}", output);
                }
                1 => {
                    assert!(input <= 4, "{}", input);
                    assert!(output < i);
                }
                2 => {
                    assert!(input < i);
                    assert!(output < i);
                }
                3 => {
                    assert!(input < i);
                    assert!(output <= 3, "{}", output);
                }
                _ => unreachable!(),
            }
        }
    }
}

#[test]
fn mutation() {
    let gene = Gene::new(rand::random(), 8);
    let mut reference: u32;

    for _ in 0..10 {
        reference = gene.bits();
        let _ = gene.mutate(8);
        assert!((reference.max(gene.bits()) - reference.min(gene.bits())) % 2 == 0);
    }
}

#[test]
fn mutation_parity_survives_reclamping() {
    // Flipping any bit above the lowest and re-clamping keeps the pattern's
    // parity, so the numeric difference is even.
    let gene = Gene::new(0xDEAD_BEEF, 8);
    for k in 1..31 {
        let mutant = Gene::new(gene.bits() ^ (1u32 << k), 8);
        let a = gene.bits() as i64;
        let b = mutant.bits() as i64;
        assert_eq!((a - b).rem_euclid(2), 0, "bit {}", k);
    }
}

#[test]
fn crossover_keeps_length_and_picks_parents() {
    let a = Genome::random(16, 4);
    let b = Genome::random(16, 4);
    let child = a.combine(&b);
    assert_eq!(child.len(), 16);
    for i in 0..16 {
        let c = child.gene(i).bits();
        assert!(c == a.gene(i).bits() || c == b.gene(i).bits());
    }
}

#[test]
fn signature_is_xor_fold() {
    let g1 = Gene::new(0x1234_5678, 3);
    let g2 = Gene::new(0x9abc_def0, 3);
    let g3 = Gene::new(0x0f0f_0f0f, 3);
    let genome = Genome::new(vec![g1, g2, g3]);
    assert_eq!(genome.signature(), g1.bits() ^ g2.bits() ^ g3.bits());
    let empty = Genome::new(vec![]);
    assert_eq!(empty.signature(), 0);
}

#[test]
fn zero_hidden_count_forces_direct_kind() {
    for seed in [0u32, 0xffff_ffff, 0x8000_0000, 0x4567_89ab] {
        let gene = Gene::new(seed, 0);
        let (kind, _, _) = Gene::dissect(gene.bits());
        assert_eq!(kind, 0);
    }
}

#[test]
fn build_scales_the_weight_mantissa() {
    // A zero mantissa decodes to the lowest weight.
    let lowest = Gene::new(0, 4);
    match lowest.build() {
        Axon::Direct { input, output, synapse } => {
            assert_eq!(input, 0);
            assert_eq!(output, 0);
            assert_eq!(synapse.value(), -4 * ONE);
        }
        _ => unreachable!(),
    }
    // A full mantissa decodes to the highest weight, capped at the
    // amplitude.
    let highest = Gene::new(0xf_ffff, 4);
    match highest.build() {
        Axon::Direct { synapse, .. } => {
            assert_eq!(synapse.value(), AMPLITUDE * ONE);
        }
        _ => unreachable!(),
    }
    // The kind routes the slots: an inter-hidden gene keeps both hidden
    // slots.
    let bits = (2u32 << 30) | (3u32 << 25) | (1u32 << 20) | 0x7_0000;
    let inter = Gene::new(bits, 4);
    match inter.build() {
        Axon::InterHidden { input, output, synapse } => {
            assert_eq!(input, 3);
            assert_eq!(output, 1);
            let expected = (0x7_0000i64 * ONE) / 131071 - 4 * ONE;
            assert_eq!(synapse.value(), expected);
        }
        _ => unreachable!(),
    }
}

#[test]
fn mutate_changes_at_most_one_gene() {
    let mut genome = Genome::random(12, 5);
    let before: Vec<u32> = (0..12).map(|i| genome.gene(i).bits()).collect();
    genome.mutate(5);
    let after: Vec<u32> = (0..12).map(|i| genome.gene(i).bits()).collect();
    let changed = before
        .iter()
        .zip(after.iter())
        .filter(|(b, a)| b != a)
        .count();
    assert!(changed <= 1);
    assert_eq!(genome.len(), 12);
}

//! The genetic encoding: a [`Gene`] is one packed 32-bit instruction
//! describing one connection to add to a brain, and a [`Genome`] is a fixed
//! ordered sequence of genes.
//!
//! Layout of a gene, from the high bits down: 2 bits of connection kind,
//! 5 bits of source slot, 5 bits of destination slot, 20 bits of weight
//! mantissa. [`Gene::new`] reduces the decoded slots into the valid range
//! for the target layer's cardinality, so decoding never fails, whatever
//! the raw seed.

use vstd::prelude::*;

use crate::fixed::{clamp_spec, ONE};
use crate::neural::{build_model, hidden_model, input_slots_of, output_model, Axon, Brain};
use crate::rng::random_below;
use crate::signal::{Amplifier, AMPLITUDE};

verus! {

/// The number of sensor slots an agent exposes.
pub const SENSOR_COUNT: u8 = 5;

/// The number of actuator slots an agent exposes.
pub const ACTUATOR_COUNT: u8 = 4;

/// The mask of the 20-bit weight mantissa.
pub const MANTISSA_MASK: u32 = 0xf_ffff;

/// The largest value of a 17-bit mantissa: the divisor that scales the
/// 20-bit mantissa into `[0, 8]` real units before the shift down to
/// `[-4, 4]`.
pub const MANTISSA_REFERENCE: i64 = 131071;

/// The connection kind packed into the top two bits of a gene.
pub open spec fn kind_of(g: u32) -> u32 {
    (g >> 30) & 3
}

/// The source slot packed into bits 25 to 29 of a gene.
pub open spec fn source_of(g: u32) -> u32 {
    (g >> 25) & 31
}

/// The destination slot packed into bits 20 to 24 of a gene.
pub open spec fn destination_of(g: u32) -> u32 {
    (g >> 20) & 31
}

/// The weight mantissa packed into the low 20 bits of a gene.
pub open spec fn mantissa_of(g: u32) -> u32 {
    g & MANTISSA_MASK
}

/// The clamped bit pattern a raw 32-bit seed decodes to, given the hidden
/// layer's cardinality: with no hidden neurons every connection collapses to
/// the direct kind, and each slot is reduced into its layer's range.
pub open spec fn gene_new_spec(g: u32, hidden: u32) -> u32 {
    let kind = if hidden == 0 {
        0u32
    } else {
        kind_of(g)
    };
    let source = source_of(g);
    let source = if kind & 2 == 0 {
        if source > 4 {
            source % 5
        } else {
            source
        }
    } else {
        if source >= hidden {
            source % hidden
        } else {
            source
        }
    };
    let destination = destination_of(g);
    let destination = if kind == 0 || kind == 3 {
        if destination > 3 {
            destination % 4
        } else {
            destination
        }
    } else {
        if destination >= hidden {
            destination % hidden
        } else {
            destination
        }
    };
    (g & MANTISSA_MASK) | (kind << 30) | (source << 25) | (destination << 20)
}

/// What it means for a bit pattern to be safely decodable against a hidden
/// layer of cardinality `hidden`: every slot lies inside its target layer.
pub open spec fn gene_ok(g: u32, hidden: u32) -> bool {
    &&& (hidden == 0 ==> kind_of(g) == 0)
    &&& (kind_of(g) & 2 == 0 ==> source_of(g) < SENSOR_COUNT)
    &&& (kind_of(g) & 2 != 0 ==> source_of(g) < hidden)
    &&& ((kind_of(g) == 0 || kind_of(g) == 3) ==> destination_of(g) < ACTUATOR_COUNT)
    &&& ((kind_of(g) == 1 || kind_of(g) == 2) ==> destination_of(g) < hidden)
}

/// The fixed-point weight a gene's mantissa decodes to, after capping into
/// the amplitude range.
pub open spec fn weight_of(g: u32) -> int {
    clamp_spec(
        (mantissa_of(g) * (ONE as int)) / (MANTISSA_REFERENCE as int) - 4 * (ONE as int),
        -(AMPLITUDE * ONE) as int,
        (AMPLITUDE * ONE) as int,
    )
}

/// Unpacking a freshly clamped gene gives back exactly the clamped fields.
proof fn lemma_repack_fields(g: u32, kind: u32, source: u32, destination: u32)
    by (bit_vector)
    requires
        kind < 4,
        source < 32,
        destination < 32,
    ensures
        kind_of((g & 0xf_ffffu32) | (kind << 30) | (source << 25) | (destination << 20)) == kind,
        source_of((g & 0xf_ffffu32) | (kind << 30) | (source << 25) | (destination << 20))
            == source,
        destination_of((g & 0xf_ffffu32) | (kind << 30) | (source << 25) | (destination << 20))
            == destination,
        mantissa_of((g & 0xf_ffffu32) | (kind << 30) | (source << 25) | (destination << 20)) == g
            & 0xf_ffffu32,
{
}

/// The raw unpacked fields of any bit pattern are five bits wide at most,
/// and the kind two.
proof fn lemma_field_widths(g: u32)
    by (bit_vector)
    ensures
        kind_of(g) < 4,
        source_of(g) < 32,
        destination_of(g) < 32,
        mantissa_of(g) <= 0xf_ffff,
{
}

/// The test on the second kind bit, spelled arithmetically.
proof fn lemma_kind_bit(kind: u32)
    by (bit_vector)
    requires
        kind < 4,
    ensures
        (kind & 2 == 0) == (kind == 0 || kind == 1),
{
}

/// The shared shape of every clamped gene: its fields are the clamped
/// fields, its low twenty bits are the raw seed's, and so is its parity.
proof fn lemma_gene_new_structure(g: u32, hidden: u32)
    requires
        hidden <= 255,
    ensures
        gene_ok(gene_new_spec(g, hidden), hidden),
        gene_new_spec(g, hidden) & 0xf_ffff == g & 0xf_ffff,
        gene_new_spec(g, hidden) % 2 == g % 2,
{
    lemma_field_widths(g);
    let kind = if hidden == 0 {
        0u32
    } else {
        kind_of(g)
    };
    let source0 = source_of(g);
    let source = if kind & 2 == 0 {
        if source0 > 4 {
            source0 % 5
        } else {
            source0
        }
    } else {
        if source0 >= hidden {
            source0 % hidden
        } else {
            source0
        }
    };
    let destination0 = destination_of(g);
    let destination = if kind == 0 || kind == 3 {
        if destination0 > 3 {
            destination0 % 4
        } else {
            destination0
        }
    } else {
        if destination0 >= hidden {
            destination0 % hidden
        } else {
            destination0
        }
    };
    lemma_kind_bit(kind);
    assert(source0 % 5 < 5);
    assert(destination0 % 4 < 4);
    if hidden > 0 {
        vstd::arithmetic::div_mod::lemma_mod_decreases(source0 as nat, hidden as nat);
        vstd::arithmetic::div_mod::lemma_mod_decreases(destination0 as nat, hidden as nat);
        assert(source0 % hidden < hidden);
        assert(destination0 % hidden < hidden);
    }
    lemma_repack_fields(g, kind, source, destination);
    let packed = (g & 0xf_ffffu32) | (kind << 30) | (source << 25) | (destination << 20);
    assert(kind < 4 && source < 32 && destination < 32 ==> (packed & 0xf_ffff == g & 0xf_ffff
        && packed % 2 == g % 2)) by (bit_vector)
        requires
            packed == (g & 0xf_ffffu32) | (kind << 30) | (source << 25) | (destination << 20),
    ;
}

/// Gene safety: clamping reduces every decoded slot into the valid range
/// for the target layer's cardinality, whatever the raw seed; a hidden
/// cardinality of zero forces the direct kind.
pub proof fn lemma_gene_new_safe(g: u32, hidden: u32)
    requires
        hidden <= 255,
    ensures
        gene_ok(gene_new_spec(g, hidden), hidden),
{
    lemma_gene_new_structure(g, hidden);
}

/// The low twenty bits of a clamped gene are the low twenty bits of the raw
/// seed: clamping touches only the packed slots above them.
pub proof fn lemma_gene_new_low_bits(g: u32, hidden: u32)
    requires
        hidden <= 255,
    ensures
        gene_new_spec(g, hidden) & 0xf_ffff == g & 0xf_ffff,
        gene_new_spec(g, hidden) % 2 == g % 2,
{
    lemma_gene_new_structure(g, hidden);
}

/// What a single mutation can produce from the bit pattern `g`: one of the
/// low 31 bits flipped, then re-clamped.
pub open spec fn mutant_of(r: u32, g: u32, hidden: u32) -> bool {
    exists|k: u32| k < 31 && r == gene_new_spec(g ^ (1u32 << k), hidden)
}

/// Mutation locality: flipping any bit above the lowest and re-clamping
/// leaves the bit pattern's parity unchanged, so the numeric difference
/// between the patterns before and after is even. Flipping the lowest bit
/// itself gives an odd difference, so that bit is left out here.
pub proof fn lemma_mutation_parity(g: u32, hidden: u32, k: u32)
    requires
        hidden <= 255,
        1 <= k < 31,
    ensures
        (gene_new_spec(g ^ (1u32 << k), hidden) as int - g as int) % 2 == 0,
{
    lemma_gene_new_low_bits(g ^ (1u32 << k), hidden);
    assert(1 <= k < 31 ==> (g ^ (1u32 << k)) % 2 == g % 2) by (bit_vector);
    let m = gene_new_spec(g ^ (1u32 << k), hidden);
    assert(m % 2 == g % 2 ==> (m as int - g as int) % 2 == 0) by (bit_vector);
}

/// A uniform crossover result: every position carries the corresponding
/// gene of one parent or the other, never a blend.
pub open spec fn crossed(c: Seq<u32>, a: Seq<u32>, b: Seq<u32>) -> bool {
    &&& c.len() == a.len()
    &&& b.len() == a.len()
    &&& forall|i: int| 0 <= i < c.len() ==> #[trigger] c[i] == a[i] || c[i] == b[i]
}

/// The brain `r` is exactly what the connection sequence `axons` builds,
/// and that sequence decodes the gene sequence position by position.
pub open spec fn brain_decodes(r: Brain, genes: Seq<u32>, axons: Seq<Axon>) -> bool {
    &&& axons.len() == genes.len()
    &&& forall|i: int| 0 <= i < axons.len() ==> axon_matches(#[trigger] axons[i], genes[i])
    &&& ({
        let model = build_model(axons, axons.len() as int);
        input_slots_of(r.inputs@) == model.0 && hidden_model(r.hiddens@) == model.1
            && output_model(r.outputs@) == model.2
    })
}

/// The brain is what some decoding of the gene sequence builds: the
/// one-step form of [`brain_decodes`], quantifying the connection sequence
/// away.
pub open spec fn decodes(brain: Brain, genes: Seq<u32>) -> bool {
    exists|axons: Seq<Axon>| #[trigger] brain_decodes(brain, genes, axons)
}

/// The typed connection a bit pattern decodes to: the kind routes the two
/// slots, and the weight is the scaled mantissa.
pub open spec fn axon_matches(a: Axon, g: u32) -> bool {
    &&& (kind_of(g) == 0 ==> (a matches Axon::Direct { input, output, synapse } && input
        == source_of(g) && output == destination_of(g) && synapse@ == weight_of(g)))
    &&& (kind_of(g) == 1 ==> (a matches Axon::IntoHidden { input, output, synapse } && input
        == source_of(g) && output == destination_of(g) && synapse@ == weight_of(g)))
    &&& (kind_of(g) == 2 ==> (a matches Axon::InterHidden { input, output, synapse } && input
        == source_of(g) && output == destination_of(g) && synapse@ == weight_of(g)))
    &&& (kind_of(g) == 3 ==> (a matches Axon::FromHidden { input, output, synapse } && input
        == source_of(g) && output == destination_of(g) && synapse@ == weight_of(g)))
}

/// One packed heritable instruction. The pattern is always kept clamped:
/// every value of this type was produced by [`Gene::new`].
#[derive(Clone, Copy, Debug)]
pub struct Gene {
    bits: u32,
}

impl View for Gene {
    type V = u32;

    closed spec fn view(&self) -> u32 {
        self.bits
    }
}

impl Gene {
    /// Decode a raw 32-bit seed against a hidden layer of `hidden_neurons`
    /// slots: every seed decodes successfully to a clamped pattern.
    pub fn new(gene: u32, hidden_neurons: u8) -> (r: Gene)
        ensures
            r@ == gene_new_spec(gene, hidden_neurons as u32),
            gene_ok(r@, hidden_neurons as u32),
    {
        proof {
            lemma_field_widths(gene);
            lemma_gene_new_safe(gene, hidden_neurons as u32);
        }
        let hidden: u32 = hidden_neurons as u32;
        let kind: u32 = if hidden == 0 {
            0
        } else {
            (gene >> 30) & 3
        };
        let mut source: u32 = (gene >> 25) & 31;
        if kind & 2 == 0 {
            if source > 4 {
                source = source % 5;
            }
        } else {
            if source >= hidden {
                source = source % hidden;
            }
        }
        let mut destination: u32 = (gene >> 20) & 31;
        if kind == 0 || kind == 3 {
            if destination > 3 {
                destination = destination % 4;
            }
        } else {
            if destination >= hidden {
                destination = destination % hidden;
            }
        }
        proof {
            assert(kind << 30 <= 0xffff_ffff && (gene & 0xf_ffffu32) | (kind << 30) | (source
                << 25) | (destination << 20) <= 0xffff_ffff) by (bit_vector);
            assert(source < 32 ==> source << 25 <= 0xffff_ffffu32) by (bit_vector);
            assert(destination < 32 ==> destination << 20 <= 0xffff_ffffu32) by (bit_vector);
        }
        Gene { bits: (gene & MANTISSA_MASK) | (kind << 30) | (source << 25) | (destination << 20) }
    }

    /// The packed bit pattern.
    pub fn bits(&self) -> (r: u32)
        ensures
            r == self@,
    {
        self.bits
    }

    /// Unpack a bit pattern into its kind, source slot and destination slot.
    pub fn dissect(gene: u32) -> (r: (u8, u8, u8))
        ensures
            r.0 == kind_of(gene),
            r.1 == source_of(gene),
            r.2 == destination_of(gene),
    {
        proof {
            lemma_field_widths(gene);
        }
        let kind = ((gene >> 30) & 3) as u8;
        let source = ((gene >> 25) & 31) as u8;
        let destination = ((gene >> 20) & 31) as u8;
        (kind, source, destination)
    }

    /// Flip one pseudo-random bit among the low 31, then re-clamp. The
    /// result is some single-bit mutant of this gene.
    pub fn mutate(&self, hidden_neurons: u8) -> (r: Gene)
        ensures
            mutant_of(r@, self@, hidden_neurons as u32),
    {
        let k: u32 = (rand::random::<u8>() % 31) as u32;
        let bit: u32 = 1u32 << k;
        let flipped: u32 = self.bits ^ bit;
        let r = Gene::new(flipped, hidden_neurons);
        proof {
            assert(r@ == gene_new_spec(self@ ^ (1u32 << k), hidden_neurons as u32));
        }
        r
    }

    /// Unpack the whole gene into a typed connection: the weight mantissa
    /// scaled into the symmetric amplitude range, and the slots routed by
    /// the connection kind.
    pub fn build(&self) -> (r: Axon)
        ensures
            kind_of(self@) == 0 ==> (r matches Axon::Direct { input, output, synapse } && input
                == source_of(self@) && output == destination_of(self@) && synapse@ == weight_of(
                self@,
            )),
            kind_of(self@) == 1 ==> (r matches Axon::IntoHidden { input, output, synapse } && input
                == source_of(self@) && output == destination_of(self@) && synapse@ == weight_of(
                self@,
            )),
            kind_of(self@) == 2 ==> (r matches Axon::InterHidden { input, output, synapse } && input
                == source_of(self@) && output == destination_of(self@) && synapse@ == weight_of(
                self@,
            )),
            kind_of(self@) == 3 ==> (r matches Axon::FromHidden { input, output, synapse } && input
                == source_of(self@) && output == destination_of(self@) && synapse@ == weight_of(
                self@,
            )),
    {
        proof {
            lemma_field_widths(self.bits);
        }
        let mantissa: u32 = self.bits & MANTISSA_MASK;
        let scaled: i64 = (mantissa as i64) * ONE / MANTISSA_REFERENCE - 4 * ONE;
        let synapse = Amplifier::new(scaled);
        let (kind, source, destination) = Gene::dissect(self.bits);
        if kind == 0 {
            Axon::Direct { input: source, output: destination, synapse }
        } else if kind == 1 {
            Axon::IntoHidden { input: source, output: destination, synapse }
        } else if kind == 2 {
            Axon::InterHidden { input: source, output: destination, synapse }
        } else {
            Axon::FromHidden { input: source, output: destination, synapse }
        }
    }
}

/// An agent's heritable wiring description: a fixed-length ordered sequence
/// of genes. Its view is the sequence of packed bit patterns.
pub struct Genome {
    genes: Vec<Gene>,
}

impl View for Genome {
    type V = Seq<u32>;

    closed spec fn view(&self) -> Seq<u32> {
        self.genes@.map(|i: int, g: Gene| g@)
    }
}

/// The order-independent XOR fold of a sequence of bit patterns.
pub open spec fn xor_fold(s: Seq<u32>) -> u32
    decreases s.len(),
{
    if s.len() == 0 {
        0
    } else {
        xor_fold(s.drop_last()) ^ s.last()
    }
}

impl Genome {
    /// A fresh random genome: `synapses` genes, each decoded from an
    /// independent random seed against the given hidden cardinality.
    pub fn random(synapses: u16, hidden_neurons: u8) -> (r: Genome)
        ensures
            r@.len() == synapses,
            forall|i: int| 0 <= i < r@.len() ==> gene_ok(#[trigger] r@[i], hidden_neurons as u32),
    {
        let mut genes: Vec<Gene> = Vec::new();
        let mut i: u16 = 0;
        while i < synapses
            invariant
                i <= synapses,
                genes@.len() == i,
                forall|j: int|
                    0 <= j < genes@.len() ==> gene_ok((#[trigger] genes@[j])@, hidden_neurons as u32),
            decreases synapses - i,
        {
            let seed: u32 = rand::random::<u32>();
            genes.push(Gene::new(seed, hidden_neurons));
            i = i + 1;
        }
        Genome { genes }
    }

    /// A genome with chosen genes: the deterministic counterpart of
    /// [`Genome::random`], for staging exact scenes.
    pub fn new(genes: Vec<Gene>) -> (r: Genome)
        requires
            genes@.len() <= 0xffff,
        ensures
            r@.len() == genes@.len(),
            forall|i: int| 0 <= i < r@.len() ==> r@[i] == (#[trigger] genes@[i])@,
    {
        Genome { genes }
    }

    /// The number of genes.
    pub fn len(&self) -> (r: usize)
        ensures
            r == self@.len(),
    {
        self.genes.len()
    }

    /// The gene at a position.
    pub fn gene(&self, index: usize) -> (r: Gene)
        requires
            index < self@.len(),
        ensures
            r@ == self@[index as int],
    {
        self.genes[index]
    }

    /// The genome's coarse identity: the XOR fold of all gene bit patterns.
    /// Order-independent, and used downstream as a colour key.
    pub fn signature(&self) -> (r: u32)
        ensures
            r == xor_fold(self@),
    {
        let mut acc: u32 = 0;
        let mut i: usize = 0;
        proof {
            assert(self@.take(0) =~= Seq::<u32>::empty());
        }
        while i < self.genes.len()
            invariant
                i <= self@.len(),
                self@.len() == self.genes@.len(),
                acc == xor_fold(self@.take(i as int)),
            decreases self@.len() - i,
        {
            proof {
                assert(self@.take(i as int + 1).drop_last() =~= self@.take(i as int));
                assert(self@.take(i as int + 1).last() == self@[i as int]);
            }
            acc = acc ^ self.genes[i].bits();
            i = i + 1;
        }
        proof {
            assert(self@.take(self@.len() as int) =~= self@);
        }
        acc
    }

    /// Uniform crossover: per position, independently pick this genome's
    /// gene or the other's, never a blend. Both genomes must have the same
    /// fixed length.
    pub fn combine(&self, other: &Genome) -> (r: Genome)
        requires
            self@.len() == other@.len(),
        ensures
            r@.len() == self@.len(),
            crossed(r@, self@, other@),
    {
        let mut genes: Vec<Gene> = Vec::new();
        let mut i: usize = 0;
        while i < self.genes.len()
            invariant
                i <= self@.len(),
                self@.len() == self.genes@.len(),
                other@.len() == self@.len(),
                other@.len() == other.genes@.len(),
                genes@.len() == i,
                forall|j: int|
                    0 <= j < i ==> (#[trigger] genes@[j])@ == self@[j] || genes@[j]@ == other@[j],
            decreases self@.len() - i,
        {
            if rand::random::<bool>() {
                genes.push(self.genes[i]);
            } else {
                genes.push(other.genes[i]);
            }
            i = i + 1;
        }
        Genome { genes }
    }

    /// Expand the genome into a brain: each gene decoded to its typed
    /// connection, and the connections woven into the three neuron arenas
    /// in genome order, deduplicating by slot.
    pub fn build(&self) -> (r: Brain)
        requires
            self@.len() <= 0x4000_0000,
        ensures
            r.wf(),
            decodes(r, self@),
            forall|j: int|
                0 <= j < r.inputs@.len() ==> (#[trigger] r.inputs@[j]).latch == 0
                    && !r.inputs@[j].visited,
            forall|j: int|
                0 <= j < r.hiddens@.len() ==> (#[trigger] r.hiddens@[j]).latch == 0
                    && !r.hiddens@[j].visited,
    {
        let mut axons: Vec<Axon> = Vec::new();
        let mut i: usize = 0;
        while i < self.genes.len()
            invariant
                i <= self@.len(),
                self@.len() == self.genes@.len(),
                self@.len() <= 0x4000_0000,
                axons@.len() == i,
                forall|j: int| 0 <= j < i ==> axon_matches(#[trigger] axons@[j], self@[j]),
            decreases self@.len() - i,
        {
            axons.push(self.genes[i].build());
            i = i + 1;
        }
        let brain = Brain::new(&axons);
        proof {
            assert(brain_decodes(brain, self@, axons@));
        }
        brain
    }

    /// Replace one uniformly chosen gene with its mutated self; an empty
    /// genome is left as it is.
    pub fn mutate(&mut self, hidden_neurons: u8)
        ensures
            final(self)@.len() == old(self)@.len(),
            old(self)@.len() == 0 ==> final(self)@ == old(self)@,
            old(self)@.len() > 0 ==> exists|i: int|
                0 <= i < old(self)@.len() && mutant_of(
                    #[trigger] final(self)@[i],
                    old(self)@[i],
                    hidden_neurons as u32,
                ) && (forall|j: int|
                    0 <= j < old(self)@.len() && j != i ==> final(self)@[j] == old(self)@[j]),
    {
        if self.genes.len() > 0 {
            let index = random_below(self.genes.len());
            let mutated = self.genes[index].mutate(hidden_neurons);
            self.genes[index] = mutated;
            proof {
                let idx = index as int;
                assert(self@ =~= old(self)@.update(idx, mutated@));
                assert(mutant_of(self@[idx], old(self)@[idx], hidden_neurons as u32));
                assert(forall|j: int|
                    0 <= j < old(self)@.len() && j != idx ==> self@[j] == old(self)@[j]);
            }
        } else {
            proof {
                assert(self@ =~= old(self)@);
            }
        }
    }
}

} // verus!

//! The neuron graph: a directed, possibly cyclic graph of input, hidden and
//! output neurons, stored in three flat index-addressed arenas and evaluated
//! lazily once per tick with cycle-safe memoization.
//!
//! Evaluation marks a hidden neuron visited *before* recursing into its own
//! dendrites, so a neuron that transitively feeds itself sees itself already
//! visited on re-entry and receives its previous tick's latch: a one-tick
//! delayed feedback rather than a simultaneous fixpoint. The specification
//! functions [`eval_ref`] and [`eval_prefix`] mirror that evaluation
//! exactly, so [`Brain::stimulus`] can promise its result to the bit.

use vstd::prelude::*;
use vstd::pervasive::VecAdditionalExecFns;

use crate::fixed::{abs_spec, clamp_spec, fmul, ONE};
use crate::signal::{Amplifier, AMPLITUDE};
use crate::trig::{tanh_fp, tanh_spec};

verus! {

/// A tagged reference to a signal source: a slot in the input arena or in
/// the hidden arena, never an output.
#[derive(Clone, Copy, PartialEq, Eq, Structural, Debug)]
pub struct Ref {
    /// Whether the reference points into the hidden arena (otherwise the
    /// input arena).
    pub hidden: bool,
    /// The arena index of the referenced neuron.
    pub index: usize,
}

/// One incoming weighted connection, owned by its destination neuron.
#[derive(Clone, Copy, Debug)]
pub struct Dendrite {
    /// The upstream signal source.
    pub axon: Ref,
    /// The weight applied to the upstream signal.
    pub synapse: Amplifier,
}

/// One typed connection decoded from a gene, before it is woven into a
/// brain.
#[derive(Clone, Copy, Debug)]
pub enum Axon {
    /// Sensor to actuator.
    Direct { input: u8, output: u8, synapse: Amplifier },
    /// Sensor to hidden neuron.
    IntoHidden { input: u8, output: u8, synapse: Amplifier },
    /// Hidden neuron to hidden neuron.
    InterHidden { input: u8, output: u8, synapse: Amplifier },
    /// Hidden neuron to actuator.
    FromHidden { input: u8, output: u8, synapse: Amplifier },
}

/// Every neuron knows which external slot it stands for.
pub trait Neuron {
    /// The slot this neuron stands for, at the specification level.
    spec fn slot_spec(&self) -> u8;

    /// The external slot this neuron stands for: a sensor index, a hidden
    /// index, or an actuator index.
    fn index(&self) -> (r: u8)
        ensures
            r == self.slot_spec(),
    ;
}

/// An input neuron: a per-tick cache of one sensor reading.
#[derive(Clone, Copy)]
pub struct InputNeuron {
    /// The sensor slot this neuron samples.
    pub slot: u8,
    /// The cached reading, within `[0, ONE]`.
    pub latch: i64,
    /// Whether the latch already holds this tick's reading.
    pub visited: bool,
}

/// A hidden neuron: a dendrite list and a per-tick cache of its aggregate.
pub struct HiddenNeuron {
    /// The hidden slot this neuron stands for.
    pub slot: u8,
    /// The incoming weighted connections.
    pub dendrites: Vec<Dendrite>,
    /// The cached aggregate, within `(-ONE, ONE)`; a fresh neuron holds 0.
    pub latch: i64,
    /// Whether the latch already holds this tick's aggregate.
    pub visited: bool,
}

/// An output neuron: a dendrite list only. Outputs are never a signal
/// source, so they carry no latch and no visited flag.
pub struct OutputNeuron {
    /// The actuator slot this neuron drives.
    pub slot: u8,
    /// The incoming weighted connections.
    pub dendrites: Vec<Dendrite>,
}

/// A reference is in bounds for arenas of the given sizes.
pub open spec fn ref_ok(r: Ref, input_count: int, hidden_count: int) -> bool {
    if r.hidden {
        r.index < hidden_count
    } else {
        r.index < input_count
    }
}

/// The per-tick mutable half of the two arenas that can source signals:
/// their latches and visited flags, with the wiring left aside. This is the
/// state the evaluation functions thread along.
#[verifier::ext_equal]
pub struct EvalState {
    /// The cached sensor readings, one per input neuron.
    pub input_latch: Seq<i64>,
    /// The per-tick sampled flags, one per input neuron.
    pub input_visited: Seq<bool>,
    /// The cached aggregates, one per hidden neuron.
    pub hidden_latch: Seq<i64>,
    /// The per-tick evaluated flags, one per hidden neuron.
    pub hidden_visited: Seq<bool>,
}

/// The evaluation state a pair of arenas holds.
pub open spec fn state_of(inputs: Seq<InputNeuron>, hiddens: Seq<HiddenNeuron>) -> EvalState {
    EvalState {
        input_latch: inputs.map(|j: int, n: InputNeuron| n.latch),
        input_visited: inputs.map(|j: int, n: InputNeuron| n.visited),
        hidden_latch: hiddens.map(|j: int, n: HiddenNeuron| n.latch),
        hidden_visited: hiddens.map(|j: int, n: HiddenNeuron| n.visited),
    }
}

/// How many flags in a sequence are still clear.
pub open spec fn count_false(s: Seq<bool>) -> nat
    decreases s.len(),
{
    if s.len() == 0 {
        0
    } else {
        count_false(s.drop_last()) + if s.last() {
            0nat
        } else {
            1nat
        }
    }
}

proof fn lemma_count_false_update(s: Seq<bool>, i: int, b: bool)
    requires
        0 <= i < s.len(),
    ensures
        count_false(s.update(i, b)) + (if s[i] {
            0nat
        } else {
            1nat
        }) == count_false(s) + (if b {
            0nat
        } else {
            1nat
        }),
    decreases s.len(),
{
    let t = s.update(i, b);
    if i == s.len() - 1 {
        assert(t.drop_last() =~= s.drop_last());
    } else {
        assert(t.drop_last() =~= s.drop_last().update(i, b));
        lemma_count_false_update(s.drop_last(), i, b);
    }
}

/// The lazy, cycle-safe evaluation of one signal source. An input neuron is
/// sampled at most once per tick; a hidden neuron is marked visited before
/// its own dendrites are folded, so a cycle re-enters it as visited and
/// reads its previous latch. `fuel` bounds how many hidden neurons can
/// still be entered; callers supply one more than the number of unvisited
/// hidden neurons, which the evaluation never exceeds.
pub open spec fn eval_ref(
    topo: Seq<Seq<Dendrite>>,
    st: EvalState,
    r: Ref,
    senses: Seq<i64>,
    fuel: nat,
) -> (EvalState, int)
    decreases fuel, 0nat, 0nat,
{
    if !r.hidden {
        if r.index >= st.input_latch.len() {
            (st, 0)
        } else if st.input_visited[r.index as int] {
            (st, st.input_latch[r.index as int] as int)
        } else {
            let v: i64 = if r.index < senses.len() {
                senses[r.index as int]
            } else {
                0
            };
            (
                EvalState {
                    input_latch: st.input_latch.update(r.index as int, v),
                    input_visited: st.input_visited.update(r.index as int, true),
                    ..st
                },
                v as int,
            )
        }
    } else {
        if r.index >= st.hidden_latch.len() || r.index >= topo.len() {
            (st, 0)
        } else if st.hidden_visited[r.index as int] {
            (st, st.hidden_latch[r.index as int] as int)
        } else if fuel == 0 {
            (st, 0)
        } else {
            let marked = EvalState {
                hidden_visited: st.hidden_visited.update(r.index as int, true),
                ..st
            };
            let ds = topo[r.index as int];
            let folded = eval_prefix(topo, marked, ds, ds.len() as int, senses, (fuel - 1) as nat);
            let latch = tanh_spec(folded.1);
            (
                EvalState {
                    hidden_latch: folded.0.hidden_latch.update(r.index as int, latch as i64),
                    ..folded.0
                },
                latch,
            )
        }
    }
}

/// The fold of the first `k` dendrites of a list: each upstream source
/// evaluated in turn, its latch scaled by the dendrite's weight, and the
/// terms summed.
pub open spec fn eval_prefix(
    topo: Seq<Seq<Dendrite>>,
    st: EvalState,
    ds: Seq<Dendrite>,
    k: int,
    senses: Seq<i64>,
    fuel: nat,
) -> (EvalState, int)
    decreases fuel, 1nat, k,
{
    if k <= 0 || k > ds.len() {
        (st, 0)
    } else {
        let folded = eval_prefix(topo, st, ds, k - 1, senses, fuel);
        let sourced = eval_ref(topo, folded.0, ds[k - 1].axon, senses, fuel);
        (sourced.0, folded.1 + fmul(ds[k - 1].synapse@, sourced.1))
    }
}

proof fn lemma_state_of_update_input(inputs: Seq<InputNeuron>, hiddens: Seq<HiddenNeuron>, i: int, n: InputNeuron)
    requires
        0 <= i < inputs.len(),
    ensures
        state_of(inputs.update(i, n), hiddens) == (EvalState {
            input_latch: state_of(inputs, hiddens).input_latch.update(i, n.latch),
            input_visited: state_of(inputs, hiddens).input_visited.update(i, n.visited),
            ..state_of(inputs, hiddens)
        }),
{
    let left = state_of(inputs.update(i, n), hiddens);
    let right = EvalState {
        input_latch: state_of(inputs, hiddens).input_latch.update(i, n.latch),
        input_visited: state_of(inputs, hiddens).input_visited.update(i, n.visited),
        ..state_of(inputs, hiddens)
    };
    assert(left.input_latch =~= right.input_latch);
    assert(left.input_visited =~= right.input_visited);
    assert(left =~= right);
}

proof fn lemma_state_of_update_hidden(inputs: Seq<InputNeuron>, hiddens: Seq<HiddenNeuron>, i: int, n: HiddenNeuron)
    requires
        0 <= i < hiddens.len(),
    ensures
        state_of(inputs, hiddens.update(i, n)) == (EvalState {
            hidden_latch: state_of(inputs, hiddens).hidden_latch.update(i, n.latch),
            hidden_visited: state_of(inputs, hiddens).hidden_visited.update(i, n.visited),
            ..state_of(inputs, hiddens)
        }),
{
    let left = state_of(inputs, hiddens.update(i, n));
    let right = EvalState {
        hidden_latch: state_of(inputs, hiddens).hidden_latch.update(i, n.latch),
        hidden_visited: state_of(inputs, hiddens).hidden_visited.update(i, n.visited),
        ..state_of(inputs, hiddens)
    };
    assert(left.hidden_latch =~= right.hidden_latch);
    assert(left.hidden_visited =~= right.hidden_visited);
    assert(left =~= right);
}

/// The brain of one agent: three independent index spaces, built once from
/// a genome and immutable in topology thereafter; only the per-tick caches
/// mutate.
pub struct Brain {
    /// The input arena: one neuron per referenced sensor slot.
    pub inputs: Vec<InputNeuron>,
    /// The hidden arena.
    pub hiddens: Vec<HiddenNeuron>,
    /// The output arena: one neuron per referenced actuator slot.
    pub outputs: Vec<OutputNeuron>,
}

/// The wiring of the hidden arena, read off the neurons.
pub open spec fn hidden_topology(hiddens: Seq<HiddenNeuron>) -> Seq<Seq<Dendrite>> {
    hiddens.map(|j: int, n: HiddenNeuron| n.dendrites@)
}

/// Every dendrite of the list points inside the two source arenas, and the
/// list is short enough that a sum over it cannot overflow.
pub open spec fn dendrites_ok(ds: Seq<Dendrite>, input_count: int, hidden_count: int) -> bool {
    &&& ds.len() <= 0x1_0000_0000
    &&& forall|k: int| 0 <= k < ds.len() ==> ref_ok((#[trigger] ds[k]).axon, input_count, hidden_count)
}

impl Brain {
    /// Well-formedness: every latch within its range and every dendrite
    /// reference inside its arena, in every neuron of the graph.
    pub open spec fn wf(self) -> bool {
        &&& forall|j: int|
            0 <= j < self.inputs@.len() ==> 0 <= (#[trigger] self.inputs@[j]).latch <= ONE
        &&& forall|j: int|
            0 <= j < self.hiddens@.len() ==> -ONE < (#[trigger] self.hiddens@[j]).latch < ONE
        &&& forall|j: int|
            0 <= j < self.hiddens@.len() ==> dendrites_ok(
                (#[trigger] self.hiddens@[j]).dendrites@,
                self.inputs@.len() as int,
                self.hiddens@.len() as int,
            )
        &&& forall|j: int|
            0 <= j < self.outputs@.len() ==> dendrites_ok(
                (#[trigger] self.outputs@[j]).dendrites@,
                self.inputs@.len() as int,
                self.hiddens@.len() as int,
            )
    }

    /// The update of one signal source, exactly as [`eval_ref`] describes
    /// it. The ghost fuel pays for each hidden neuron entered; one more
    /// than the count of unvisited hidden neurons always suffices, because
    /// each entry marks one of them visited.
    fn update(
        inputs: &mut Vec<InputNeuron>,
        hiddens: &mut Vec<HiddenNeuron>,
        r: Ref,
        senses: &Vec<i64>,
        Ghost(topo): Ghost<Seq<Seq<Dendrite>>>,
        Ghost(fuel): Ghost<nat>,
    ) -> (v: i64)
        requires
            senses@.len() == old(inputs)@.len(),
            forall|j: int| 0 <= j < senses@.len() ==> 0 <= #[trigger] senses@[j] <= ONE,
            forall|j: int|
                0 <= j < old(inputs)@.len() ==> 0 <= (#[trigger] old(inputs)@[j]).latch <= ONE,
            forall|j: int|
                0 <= j < old(hiddens)@.len() ==> -ONE < (#[trigger] old(hiddens)@[j]).latch < ONE,
            topo.len() == old(hiddens)@.len(),
            forall|j: int|
                0 <= j < old(hiddens)@.len() && !old(hiddens)@[j].visited ==> (#[trigger] old(hiddens)@[j]).dendrites@ == topo[j],
            forall|j: int| 0 <= j < topo.len() ==> (#[trigger] topo[j]).len() <= 0x1_0000_0000,
            forall|j: int, k: int|
                0 <= j < topo.len() && 0 <= k < topo[j].len() ==> ref_ok(
                    (#[trigger] topo[j][k]).axon,
                    old(inputs)@.len() as int,
                    old(hiddens)@.len() as int,
                ),
            ref_ok(r, old(inputs)@.len() as int, old(hiddens)@.len() as int),
            count_false(state_of(old(inputs)@, old(hiddens)@).hidden_visited) < fuel,
        ensures
            final(inputs)@.len() == old(inputs)@.len(),
            final(hiddens)@.len() == old(hiddens)@.len(),
            ({
                let evaluated = eval_ref(
                    topo,
                    state_of(old(inputs)@, old(hiddens)@),
                    r,
                    senses@,
                    fuel,
                );
                state_of(final(inputs)@, final(hiddens)@) == evaluated.0 && v as int == evaluated.1
            }),
            -ONE < v < ONE || (!r.hidden && 0 <= v <= ONE),
            forall|j: int|
                0 <= j < old(inputs)@.len() ==> (#[trigger] final(inputs)@[j]).slot == old(inputs)@[j].slot,
            forall|j: int|
                0 <= j < old(hiddens)@.len() ==> (#[trigger] final(hiddens)@[j]).slot == old(hiddens)@[j].slot && final(hiddens)@[j].dendrites@ == old(hiddens)@[j].dendrites@,
            forall|j: int|
                0 <= j < old(inputs)@.len() && old(inputs)@[j].visited ==> (#[trigger] final(inputs)@[j]) == old(inputs)@[j],
            forall|j: int|
                0 <= j < old(hiddens)@.len() && old(hiddens)@[j].visited ==> (#[trigger] final(hiddens)@[j]) == old(hiddens)@[j],
            forall|j: int|
                0 <= j < old(inputs)@.len() ==> 0 <= (#[trigger] final(inputs)@[j]).latch <= ONE,
            forall|j: int|
                0 <= j < old(hiddens)@.len() ==> -ONE < (#[trigger] final(hiddens)@[j]).latch
                    < ONE,
            count_false(state_of(final(inputs)@, final(hiddens)@).hidden_visited) <= count_false(
                state_of(old(inputs)@, old(hiddens)@).hidden_visited,
            ),
        decreases fuel,
    {
        let ghost st0 = state_of(old(inputs)@, old(hiddens)@);
        if !r.hidden {
            let idx = r.index;
            if inputs[idx].visited {
                inputs[idx].latch
            } else {
                let slot = inputs[idx].slot;
                let v = senses[idx];
                inputs[idx] = InputNeuron { slot, latch: v, visited: true };
                proof {
                    lemma_state_of_update_input(
                        old(inputs)@,
                        old(hiddens)@,
                        idx as int,
                        InputNeuron { slot, latch: v, visited: true },
                    );
                }
                v
            }
        } else {
            let idx = r.index;
            if hiddens[idx].visited {
                hiddens[idx].latch
            } else {
                let slot = hiddens[idx].slot;
                let cached = hiddens[idx].latch;
                let mut taken = HiddenNeuron {
                    slot,
                    dendrites: Vec::new(),
                    latch: cached,
                    visited: true,
                };
                hiddens.set_and_swap(idx, &mut taken);
                let placeholder = HiddenNeuron {
                    slot,
                    dendrites: Vec::new(),
                    latch: cached,
                    visited: true,
                };
                let ghost marked = EvalState {
                    hidden_visited: st0.hidden_visited.update(idx as int, true),
                    ..st0
                };
                proof {
                    lemma_state_of_update_hidden(
                        old(inputs)@,
                        old(hiddens)@,
                        idx as int,
                        placeholder,
                    );
                    assert(state_of(inputs@, hiddens@) =~= marked);
                    lemma_count_false_update(st0.hidden_visited, idx as int, true);
                }
                let HiddenNeuron { slot: _, dendrites: ds, latch: _, visited: _ } = taken;
                proof {
                    assert(ds@ == topo[idx as int]);
                }
                let mut sum: i64 = 0;
                let mut k: usize = 0;
                while k < ds.len()
                    invariant
                        k <= ds@.len(),
                        ds@ == topo[idx as int],
                        idx == r.index < hiddens@.len(),
                        inputs@.len() == old(inputs)@.len(),
                        hiddens@.len() == old(hiddens)@.len(),
                        senses@.len() == old(inputs)@.len(),
                        forall|j: int| 0 <= j < senses@.len() ==> 0 <= #[trigger] senses@[j] <= ONE,
                        topo.len() == old(hiddens)@.len(),
                        forall|j: int|
                            0 <= j < topo.len() ==> (#[trigger] topo[j]).len() <= 0x1_0000_0000,
                        forall|j: int, k2: int|
                            0 <= j < topo.len() && 0 <= k2 < topo[j].len() ==> ref_ok(
                                (#[trigger] topo[j][k2]).axon,
                                old(inputs)@.len() as int,
                                old(hiddens)@.len() as int,
                            ),
                        forall|j: int|
                            0 <= j < hiddens@.len() && !hiddens@[j].visited ==> (#[trigger] hiddens@[j]).dendrites@ == topo[j],
                        forall|j: int|
                            0 <= j < inputs@.len() ==> 0 <= (#[trigger] inputs@[j]).latch <= ONE,
                        forall|j: int|
                            0 <= j < hiddens@.len() ==> -ONE < (#[trigger] hiddens@[j]).latch
                                < ONE,
                        forall|j: int|
                            0 <= j < inputs@.len() ==> (#[trigger] inputs@[j]).slot == old(inputs)@[j].slot,
                        forall|j: int|
                            0 <= j < hiddens@.len() && j != idx ==> (#[trigger] hiddens@[j]).slot
                                == old(hiddens)@[j].slot && hiddens@[j].dendrites@ == old(hiddens)@[j].dendrites@,
                        forall|j: int|
                            0 <= j < inputs@.len() && old(inputs)@[j].visited ==> (
                            #[trigger] inputs@[j]) == old(inputs)@[j],
                        forall|j: int|
                            0 <= j < hiddens@.len() && j != idx && old(hiddens)@[j].visited ==> (
                            #[trigger] hiddens@[j]) == old(hiddens)@[j],
                        hiddens@[idx as int].slot == slot,
                        hiddens@[idx as int].latch == cached,
                        hiddens@[idx as int].visited,
                        fuel >= 2,
                        count_false(marked.hidden_visited) + 2 <= fuel,
                        count_false(state_of(inputs@, hiddens@).hidden_visited) <= count_false(
                            marked.hidden_visited,
                        ),
                        ({
                            let folded = eval_prefix(
                                topo,
                                marked,
                                topo[idx as int],
                                k as int,
                                senses@,
                                (fuel - 1) as nat,
                            );
                            state_of(inputs@, hiddens@) == folded.0 && sum as int == folded.1
                        }),
                        abs_spec(sum as int) <= k * (AMPLITUDE * ONE),
                    decreases ds@.len() - k,
                {
                    let d = ds[k];
                    proof {
                        assert(topo[idx as int][k as int] == d);
                        assert(ref_ok(d.axon, inputs@.len() as int, hiddens@.len() as int));
                        assert(k * ((AMPLITUDE * ONE) as int) + (AMPLITUDE * ONE) as int == (k + 1)
                            * ((AMPLITUDE * ONE) as int)) by (nonlinear_arith);
                        assert(k + 1 <= 0x1_0000_0000);
                        assert((k + 1) * ((AMPLITUDE * ONE) as int) <= 0x1_0000_0000 * ((AMPLITUDE
                            * ONE) as int)) by (nonlinear_arith)
                            requires
                                0 <= k + 1 <= 0x1_0000_0000,
                        ;
                    }
                    let upstream = Brain::update(
                        inputs,
                        hiddens,
                        d.axon,
                        senses,
                        Ghost(topo),
                        Ghost((fuel - 1) as nat),
                    );
                    let term = d.synapse.amplify(upstream);
                    sum = sum + term;
                    k = k + 1;
                }
                proof {
                    assert(abs_spec(sum as int) <= 0x1_0000_0000 * ((AMPLITUDE * ONE) as int))
                        by (nonlinear_arith)
                        requires
                            abs_spec(sum as int) <= k * ((AMPLITUDE * ONE) as int),
                            0 <= k <= 0x1_0000_0000,
                    ;
                }
                let latch = tanh_fp(sum);
                let fresh = HiddenNeuron { slot, dendrites: ds, latch, visited: true };
                proof {
                    lemma_state_of_update_hidden(inputs@, hiddens@, idx as int, fresh);
                    lemma_count_false_update(
                        state_of(inputs@, hiddens@).hidden_visited,
                        idx as int,
                        true,
                    );
                }
                hiddens[idx] = fresh;
                proof {
                    let folded = eval_prefix(
                        topo,
                        marked,
                        topo[idx as int],
                        topo[idx as int].len() as int,
                        senses@,
                        (fuel - 1) as nat,
                    );
                    assert(state_of(inputs@, hiddens@) =~= (EvalState {
                        hidden_latch: folded.0.hidden_latch.update(idx as int, latch),
                        ..folded.0
                    }));
                }
                latch
            }
        }
    }
}

/// The dendrite lists of the output arena.
pub open spec fn output_topology(outputs: Seq<OutputNeuron>) -> Seq<Seq<Dendrite>> {
    outputs.map(|j: int, n: OutputNeuron| n.dendrites@)
}

/// The same state with every visited flag cleared and every latch kept:
/// how a tick begins.
pub open spec fn cleared(st: EvalState) -> EvalState {
    EvalState {
        input_visited: Seq::new(st.input_visited.len(), |j: int| false),
        hidden_visited: Seq::new(st.hidden_visited.len(), |j: int| false),
        ..st
    }
}

/// One tick of the whole graph: the first `k` outputs evaluated in order,
/// each output's dendrite fold aggregated through the hyperbolic tangent
/// and capped into the unit interval, threading the memoization state from
/// one output to the next.
pub open spec fn stimulus_prefix(
    topo: Seq<Seq<Dendrite>>,
    st: EvalState,
    outs: Seq<Seq<Dendrite>>,
    k: int,
    senses: Seq<i64>,
) -> (Seq<int>, EvalState)
    decreases k,
{
    if k <= 0 || k > outs.len() {
        (Seq::empty(), st)
    } else {
        let prior = stimulus_prefix(topo, st, outs, k - 1, senses);
        let fuel = (count_false(prior.1.hidden_visited) + 1) as nat;
        let folded = eval_prefix(topo, prior.1, outs[k - 1], outs[k - 1].len() as int, senses, fuel);
        (prior.0.push(clamp_spec(tanh_spec(folded.1), 0, ONE as int)), folded.0)
    }
}

impl Brain {
    /// Clear every per-tick visited flag, leaving latches and wiring as
    /// they are.
    fn clear_visits(&mut self)
        ensures
            final(self).inputs@.len() == old(self).inputs@.len(),
            final(self).hiddens@.len() == old(self).hiddens@.len(),
            final(self).outputs@ == old(self).outputs@,
            forall|j: int|
                0 <= j < old(self).inputs@.len() ==> (#[trigger] final(self).inputs@[j])
                    == (InputNeuron { visited: false, ..old(self).inputs@[j] }),
            forall|j: int|
                0 <= j < old(self).hiddens@.len() ==> (#[trigger] final(self).hiddens@[j]).slot
                    == old(self).hiddens@[j].slot && final(self).hiddens@[j].latch == old(self).hiddens@[j].latch && final(self).hiddens@[j].dendrites@ == old(self).hiddens@[j].dendrites@ && !final(self).hiddens@[j].visited,
    {
        let mut i: usize = 0;
        while i < self.inputs.len()
            invariant
                i <= self.inputs@.len(),
                self.inputs@.len() == old(self).inputs@.len(),
                self.hiddens@ == old(self).hiddens@,
                self.outputs@ == old(self).outputs@,
                forall|j: int|
                    0 <= j < i ==> (#[trigger] self.inputs@[j]) == (InputNeuron {
                        visited: false,
                        ..old(self).inputs@[j]
                    }),
                forall|j: int|
                    i <= j < self.inputs@.len() ==> (#[trigger] self.inputs@[j]) == old(self).inputs@[j],
            decreases self.inputs@.len() - i,
        {
            let n = self.inputs[i];
            self.inputs[i] = InputNeuron { slot: n.slot, latch: n.latch, visited: false };
            i = i + 1;
        }
        let mut h: usize = 0;
        while h < self.hiddens.len()
            invariant
                h <= self.hiddens@.len(),
                self.hiddens@.len() == old(self).hiddens@.len(),
                self.inputs@.len() == old(self).inputs@.len(),
                self.outputs@ == old(self).outputs@,
                forall|j: int|
                    0 <= j < self.inputs@.len() ==> (#[trigger] self.inputs@[j]) == (InputNeuron {
                        visited: false,
                        ..old(self).inputs@[j]
                    }),
                forall|j: int|
                    0 <= j < h ==> (#[trigger] self.hiddens@[j]).slot == old(self).hiddens@[j].slot
                        && self.hiddens@[j].latch == old(self).hiddens@[j].latch
                        && self.hiddens@[j].dendrites@ == old(self).hiddens@[j].dendrites@
                        && !self.hiddens@[j].visited,
                forall|j: int|
                    h <= j < self.hiddens@.len() ==> (#[trigger] self.hiddens@[j]) == old(self).hiddens@[j],
            decreases self.hiddens@.len() - h,
        {
            let slot = self.hiddens[h].slot;
            let cached = self.hiddens[h].latch;
            let mut taken = HiddenNeuron {
                slot,
                dendrites: Vec::new(),
                latch: cached,
                visited: false,
            };
            self.hiddens.set_and_swap(h, &mut taken);
            let HiddenNeuron { slot: _, dendrites: ds, latch: _, visited: _ } = taken;
            self.hiddens[h] = HiddenNeuron { slot, dendrites: ds, latch: cached, visited: false };
            h = h + 1;
        }
    }

    /// The sensor slots of the input arena, in arena order: the values a
    /// caller hands to [`Brain::stimulus`] must be the readings of these
    /// slots.
    pub fn input_slots(&self) -> (r: Vec<u8>)
        ensures
            r@.len() == self.inputs@.len(),
            forall|j: int| 0 <= j < r@.len() ==> r@[j] == (#[trigger] self.inputs@[j]).slot,
    {
        let mut slots: Vec<u8> = Vec::new();
        let mut i: usize = 0;
        while i < self.inputs.len()
            invariant
                i <= self.inputs@.len(),
                slots@.len() == i,
                forall|j: int| 0 <= j < i ==> slots@[j] == (#[trigger] self.inputs@[j]).slot,
            decreases self.inputs@.len() - i,
        {
            slots.push(self.inputs[i].slot);
            i = i + 1;
        }
        slots
    }

    /// One tick: clear the visited flags, then fold every output's
    /// dendrites over the lazily sampled senses, exactly as
    /// [`stimulus_prefix`] describes. Each pair of the result is an
    /// actuator slot and its capped signal; an output with no dendrites
    /// aggregates nothing and reports zero, so an empty genome is inert,
    /// never a failure.
    pub fn stimulus(&mut self, senses: &Vec<i64>) -> (out: Vec<(u8, i64)>)
        requires
            old(self).wf(),
            senses@.len() == old(self).inputs@.len(),
            forall|j: int| 0 <= j < senses@.len() ==> 0 <= #[trigger] senses@[j] <= ONE,
        ensures
            final(self).wf(),
            final(self).inputs@.len() == old(self).inputs@.len(),
            final(self).hiddens@.len() == old(self).hiddens@.len(),
            final(self).outputs@ == old(self).outputs@,
            forall|j: int|
                0 <= j < old(self).inputs@.len() ==> (#[trigger] final(self).inputs@[j]).slot
                    == old(self).inputs@[j].slot,
            forall|j: int|
                0 <= j < old(self).hiddens@.len() ==> (#[trigger] final(self).hiddens@[j]).slot
                    == old(self).hiddens@[j].slot && final(self).hiddens@[j].dendrites@ == old(self).hiddens@[j].dendrites@,
            out@.len() == old(self).outputs@.len(),
            forall|i: int|
                0 <= i < out@.len() ==> (#[trigger] out@[i]).0 == old(self).outputs@[i].slot,
            forall|i: int| 0 <= i < out@.len() ==> 0 <= (#[trigger] out@[i]).1 <= ONE,
            ({
                let run = stimulus_prefix(
                    hidden_topology(old(self).hiddens@),
                    cleared(state_of(old(self).inputs@, old(self).hiddens@)),
                    output_topology(old(self).outputs@),
                    old(self).outputs@.len() as int,
                    senses@,
                );
                state_of(final(self).inputs@, final(self).hiddens@) == run.1 && forall|i: int|
                    0 <= i < out@.len() ==> (#[trigger] out@[i]).1 as int == run.0[i]
            }),
            forall|i: int|
                0 <= i < out@.len() && old(self).outputs@[i].dendrites@.len() == 0 ==> (
                #[trigger] out@[i]).1 == 0,
    {
        let ghost topo = hidden_topology(old(self).hiddens@);
        let ghost outs = output_topology(old(self).outputs@);
        let ghost st0 = cleared(state_of(old(self).inputs@, old(self).hiddens@));
        self.clear_visits();
        proof {
            assert(state_of(self.inputs@, self.hiddens@) =~= st0);
            assert(hidden_topology(self.hiddens@) =~= topo);
            assert(output_topology(self.outputs@) =~= outs);
        }
        let mut out: Vec<(u8, i64)> = Vec::new();
        let mut k: usize = 0;
        let output_count = self.outputs.len();
        while k < output_count
            invariant
                k <= output_count,
                output_count == self.outputs@.len(),
                self.outputs@ == old(self).outputs@,
                outs == output_topology(self.outputs@),
                forall|j: int|
                    0 <= j < self.outputs@.len() ==> dendrites_ok(
                        (#[trigger] self.outputs@[j]).dendrites@,
                        self.inputs@.len() as int,
                        self.hiddens@.len() as int,
                    ),
                topo.len() == self.hiddens@.len(),
                senses@.len() == self.inputs@.len(),
                forall|j: int| 0 <= j < senses@.len() ==> 0 <= #[trigger] senses@[j] <= ONE,
                self.inputs@.len() == old(self).inputs@.len(),
                self.hiddens@.len() == old(self).hiddens@.len(),
                forall|j: int| 0 <= j < topo.len() ==> (#[trigger] topo[j]).len() <= 0x1_0000_0000,
                forall|j: int, k2: int|
                    0 <= j < topo.len() && 0 <= k2 < topo[j].len() ==> ref_ok(
                        (#[trigger] topo[j][k2]).axon,
                        self.inputs@.len() as int,
                        self.hiddens@.len() as int,
                    ),
                forall|j: int|
                    0 <= j < self.hiddens@.len() && !self.hiddens@[j].visited ==> (
                    #[trigger] self.hiddens@[j]).dendrites@ == topo[j],
                forall|j: int|
                    0 <= j < self.hiddens@.len() ==> (#[trigger] self.hiddens@[j]).dendrites@
                        == old(self).hiddens@[j].dendrites@ && self.hiddens@[j].slot == old(self).hiddens@[j].slot,
                forall|j: int|
                    0 <= j < self.inputs@.len() ==> (#[trigger] self.inputs@[j]).slot == old(self).inputs@[j].slot,
                forall|j: int|
                    0 <= j < self.inputs@.len() ==> 0 <= (#[trigger] self.inputs@[j]).latch <= ONE,
                forall|j: int|
                    0 <= j < self.hiddens@.len() ==> -ONE < (#[trigger] self.hiddens@[j]).latch
                        < ONE,
                out@.len() == k,
                forall|i: int|
                    0 <= i < k ==> (#[trigger] out@[i]).0 == old(self).outputs@[i].slot,
                forall|i: int| 0 <= i < k ==> 0 <= (#[trigger] out@[i]).1 <= ONE,
                forall|i: int|
                    0 <= i < k && old(self).outputs@[i].dendrites@.len() == 0 ==> (
                    #[trigger] out@[i]).1 == 0,
                ({
                    let run = stimulus_prefix(topo, st0, outs, k as int, senses@);
                    run.0.len() == k && state_of(self.inputs@, self.hiddens@) == run.1 && forall|
                        i: int,
                    |
                        0 <= i < k ==> (#[trigger] out@[i]).1 as int == run.0[i]
                }),
            decreases output_count - k,
        {
            let ghost run_before = stimulus_prefix(topo, st0, outs, k as int, senses@);
            let ghost fuel = (count_false(run_before.1.hidden_visited) + 1) as nat;
            let slot = self.outputs[k].index();
            let dendrite_count = self.outputs[k].dendrites.len();
            proof {
                assert(outs[k as int] == self.outputs@[k as int].dendrites@);
            }
            let mut sum: i64 = 0;
            let mut j: usize = 0;
            while j < dendrite_count
                invariant
                    j <= dendrite_count,
                    k < output_count,
                    output_count == self.outputs@.len(),
                    self.outputs@ == old(self).outputs@,
                    outs == output_topology(self.outputs@),
                    dendrite_count == self.outputs@[k as int].dendrites@.len(),
                    dendrite_count <= 0x1_0000_0000,
                    topo.len() == self.hiddens@.len(),
                    senses@.len() == self.inputs@.len(),
                    forall|j2: int| 0 <= j2 < senses@.len() ==> 0 <= #[trigger] senses@[j2] <= ONE,
                    self.inputs@.len() == old(self).inputs@.len(),
                    self.hiddens@.len() == old(self).hiddens@.len(),
                    forall|j2: int|
                        0 <= j2 < topo.len() ==> (#[trigger] topo[j2]).len() <= 0x1_0000_0000,
                    forall|j2: int, k2: int|
                        0 <= j2 < topo.len() && 0 <= k2 < topo[j2].len() ==> ref_ok(
                            (#[trigger] topo[j2][k2]).axon,
                            self.inputs@.len() as int,
                            self.hiddens@.len() as int,
                        ),
                    forall|j2: int|
                        0 <= j2 < self.outputs@.len() ==> dendrites_ok(
                            (#[trigger] self.outputs@[j2]).dendrites@,
                            self.inputs@.len() as int,
                            self.hiddens@.len() as int,
                        ),
                    forall|j2: int|
                        0 <= j2 < self.hiddens@.len() && !self.hiddens@[j2].visited ==> (
                        #[trigger] self.hiddens@[j2]).dendrites@ == topo[j2],
                    forall|j2: int|
                        0 <= j2 < self.hiddens@.len() ==> (#[trigger] self.hiddens@[j2]).dendrites@
                            == old(self).hiddens@[j2].dendrites@ && self.hiddens@[j2].slot == old(self).hiddens@[j2].slot,
                    forall|j2: int|
                        0 <= j2 < self.inputs@.len() ==> (#[trigger] self.inputs@[j2]).slot == old(self).inputs@[j2].slot,
                    forall|j2: int|
                        0 <= j2 < self.inputs@.len() ==> 0 <= (#[trigger] self.inputs@[j2]).latch
                            <= ONE,
                    forall|j2: int|
                        0 <= j2 < self.hiddens@.len() ==> -ONE < (
                        #[trigger] self.hiddens@[j2]).latch < ONE,
                    count_false(state_of(self.inputs@, self.hiddens@).hidden_visited) < fuel,
                    ({
                        let folded = eval_prefix(
                            topo,
                            run_before.1,
                            outs[k as int],
                            j as int,
                            senses@,
                            fuel,
                        );
                        state_of(self.inputs@, self.hiddens@) == folded.0 && sum as int == folded.1
                    }),
                    abs_spec(sum as int) <= j * (AMPLITUDE * ONE),
                decreases dendrite_count - j,
            {
                let d = self.outputs[k].dendrites[j];
                proof {
                    assert(outs[k as int][j as int] == d);
                    assert(j * ((AMPLITUDE * ONE) as int) + (AMPLITUDE * ONE) as int == (j + 1) * ((
                    AMPLITUDE * ONE) as int)) by (nonlinear_arith);
                    assert((j + 1) * ((AMPLITUDE * ONE) as int) <= 0x1_0000_0000 * ((AMPLITUDE
                        * ONE) as int)) by (nonlinear_arith)
                        requires
                            0 <= j + 1 <= 0x1_0000_0000,
                    ;
                }
                let upstream = Brain::update(
                    &mut self.inputs,
                    &mut self.hiddens,
                    d.axon,
                    senses,
                    Ghost(topo),
                    Ghost(fuel),
                );
                let term = d.synapse.amplify(upstream);
                sum = sum + term;
                j = j + 1;
            }
            proof {
                assert(abs_spec(sum as int) <= 0x1_0000_0000 * ((AMPLITUDE * ONE) as int))
                    by (nonlinear_arith)
                    requires
                        abs_spec(sum as int) <= j * ((AMPLITUDE * ONE) as int),
                        0 <= j <= 0x1_0000_0000,
                ;
            }
            let aggregated = tanh_fp(sum);
            let value = crate::fixed::clamp(aggregated, 0, ONE);
            proof {
                if dendrite_count == 0 {
                    crate::trig::lemma_tanh_zero();
                }
                let run_after = stimulus_prefix(topo, st0, outs, k as int + 1, senses@);
                let folded = eval_prefix(
                    topo,
                    run_before.1,
                    outs[k as int],
                    outs[k as int].len() as int,
                    senses@,
                    fuel,
                );
                assert(run_after.1 == folded.0);
                assert(run_after.0 == run_before.0.push(
                    clamp_spec(tanh_spec(folded.1), 0, ONE as int),
                ));
            }
            out.push((slot, value));
            k = k + 1;
        }
        out
    }
}

/// The sensor slots of the input arena, in arena order.
pub open spec fn input_slots_of(inputs: Seq<InputNeuron>) -> Seq<u8> {
    inputs.map(|j: int, n: InputNeuron| n.slot)
}

/// The hidden arena reduced to what construction decides: each neuron's
/// slot and dendrite list.
pub open spec fn hidden_model(hiddens: Seq<HiddenNeuron>) -> Seq<(u8, Seq<Dendrite>)> {
    hiddens.map(|j: int, n: HiddenNeuron| (n.slot, n.dendrites@))
}

/// The output arena reduced to slots and dendrite lists.
pub open spec fn output_model(outputs: Seq<OutputNeuron>) -> Seq<(u8, Seq<Dendrite>)> {
    outputs.map(|j: int, n: OutputNeuron| (n.slot, n.dendrites@))
}

/// The position of the first occurrence of a slot, or -1.
pub open spec fn find_index(slots: Seq<u8>, slot: u8) -> int
    decreases slots.len(),
{
    if slots.len() == 0 {
        -1
    } else if slots[0] == slot {
        0
    } else {
        let tail = find_index(slots.drop_first(), slot);
        if tail < 0 {
            -1
        } else {
            tail + 1
        }
    }
}

proof fn lemma_find_index_characterizes(slots: Seq<u8>, slot: u8)
    ensures
        find_index(slots, slot) == -1 ==> forall|j: int| 0 <= j < slots.len() ==> slots[j] != slot,
        find_index(slots, slot) >= 0 ==> find_index(slots, slot) < slots.len() && slots[find_index(
            slots,
            slot,
        )] == slot && forall|j: int| 0 <= j < find_index(slots, slot) ==> slots[j] != slot,
    decreases slots.len(),
{
    if slots.len() > 0 && slots[0] != slot {
        let tail = slots.drop_first();
        lemma_find_index_characterizes(tail, slot);
        assert(forall|j: int| 0 <= j < tail.len() ==> #[trigger] tail[j] == slots[j + 1]);
        if find_index(tail, slot) == -1 {
            assert forall|j: int| 0 <= j < slots.len() implies slots[j] != slot by {
                if j > 0 {
                    assert(slots[j] == tail[j - 1]);
                }
            }
        } else {
            let f = find_index(tail, slot);
            assert(slots[f + 1] == tail[f]);
            assert forall|j: int| 0 <= j < f + 1 implies slots[j] != slot by {
                if j > 0 {
                    assert(slots[j] == tail[j - 1]);
                }
            }
        }
    }
}

/// Resolving a source slot in a pool: the arena index of its neuron,
/// creating one at the end when the slot is new.
pub open spec fn resolve_slot(slots: Seq<u8>, slot: u8) -> (Seq<u8>, int) {
    let found = find_index(slots, slot);
    if found >= 0 {
        (slots, found)
    } else {
        (slots.push(slot), slots.len() as int)
    }
}

/// Attaching a dendrite to a sink slot in a pool: appended to the slot's
/// existing neuron when there is one, else a new neuron carrying just this
/// dendrite.
pub open spec fn attach_dendrite(
    pool: Seq<(u8, Seq<Dendrite>)>,
    slot: u8,
    d: Dendrite,
) -> Seq<(u8, Seq<Dendrite>)> {
    let found = find_index(pool.map(|j: int, p: (u8, Seq<Dendrite>)| p.0), slot);
    if found >= 0 {
        pool.update(found, (slot, pool[found].1.push(d)))
    } else {
        pool.push((slot, seq![d]))
    }
}

/// What one typed connection does to the three arenas: the source slot is
/// resolved (or created) in its pool, and one weighted dendrite referencing
/// it is attached to the destination slot's neuron in its pool.
pub open spec fn weave(
    model: (Seq<u8>, Seq<(u8, Seq<Dendrite>)>, Seq<(u8, Seq<Dendrite>)>),
    a: Axon,
) -> (Seq<u8>, Seq<(u8, Seq<Dendrite>)>, Seq<(u8, Seq<Dendrite>)>) {
    match a {
        Axon::Direct { input, output, synapse } => {
            let resolved = resolve_slot(model.0, input);
            let d = Dendrite { axon: Ref { hidden: false, index: resolved.1 as usize }, synapse };
            (resolved.0, model.1, attach_dendrite(model.2, output, d))
        },
        Axon::IntoHidden { input, output, synapse } => {
            let resolved = resolve_slot(model.0, input);
            let d = Dendrite { axon: Ref { hidden: false, index: resolved.1 as usize }, synapse };
            (resolved.0, attach_dendrite(model.1, output, d), model.2)
        },
        Axon::InterHidden { input, output, synapse } => {
            let hslots = model.1.map(|j: int, p: (u8, Seq<Dendrite>)| p.0);
            let found = find_index(hslots, input);
            let withsource = if found >= 0 {
                model.1
            } else {
                model.1.push((input, Seq::empty()))
            };
            let index = if found >= 0 {
                found
            } else {
                model.1.len() as int
            };
            let d = Dendrite { axon: Ref { hidden: true, index: index as usize }, synapse };
            (model.0, attach_dendrite(withsource, output, d), model.2)
        },
        Axon::FromHidden { input, output, synapse } => {
            let hslots = model.1.map(|j: int, p: (u8, Seq<Dendrite>)| p.0);
            let found = find_index(hslots, input);
            let withsource = if found >= 0 {
                model.1
            } else {
                model.1.push((input, Seq::empty()))
            };
            let index = if found >= 0 {
                found
            } else {
                model.1.len() as int
            };
            let d = Dendrite { axon: Ref { hidden: true, index: index as usize }, synapse };
            (model.0, withsource, attach_dendrite(model.2, output, d))
        },
    }
}

/// The arenas the first `k` connections of a sequence build up, starting
/// from three empty pools.
pub open spec fn build_model(axons: Seq<Axon>, k: int) -> (
    Seq<u8>,
    Seq<(u8, Seq<Dendrite>)>,
    Seq<(u8, Seq<Dendrite>)>,
)
    decreases k,
{
    if k <= 0 {
        (Seq::empty(), Seq::empty(), Seq::empty())
    } else {
        weave(build_model(axons, k - 1), axons[k - 1])
    }
}

/// The slots of the hidden arena, in arena order.
pub open spec fn hidden_slots_of(hiddens: Seq<HiddenNeuron>) -> Seq<u8> {
    hiddens.map(|j: int, n: HiddenNeuron| n.slot)
}

/// The slots of the output arena, in arena order.
pub open spec fn output_slots_of(outputs: Seq<OutputNeuron>) -> Seq<u8> {
    outputs.map(|j: int, n: OutputNeuron| n.slot)
}

fn find_input_index(inputs: &Vec<InputNeuron>, slot: u8) -> (r: Option<usize>)
    ensures
        match r {
            Some(i) => i as int == find_index(input_slots_of(inputs@), slot) && i < inputs@.len()
                && inputs@[i as int].slot == slot,
            None => find_index(input_slots_of(inputs@), slot) == -1,
        },
{
    let mut i: usize = 0;
    while i < inputs.len()
        invariant
            i <= inputs@.len(),
            forall|j: int| 0 <= j < i ==> (#[trigger] inputs@[j]).slot != slot,
        decreases inputs@.len() - i,
    {
        if inputs[i].slot == slot {
            proof {
                let slots_seq = input_slots_of(inputs@);
                lemma_find_index_characterizes(slots_seq, slot);
                assert(slots_seq[i as int] == inputs@[i as int].slot);
                assert forall|j: int| 0 <= j < slots_seq.len() && slots_seq[j] == slot implies j
                    >= i by {
                    assert(slots_seq[j] == inputs@[j].slot);
                }
                assert(find_index(slots_seq, slot) == i as int);
            }
            return Some(i);
        }
        i = i + 1;
    }
    proof {
        let slots_seq = input_slots_of(inputs@);
        lemma_find_index_characterizes(slots_seq, slot);
        assert forall|j: int| 0 <= j < slots_seq.len() implies slots_seq[j] != slot by {
            assert(slots_seq[j] == inputs@[j].slot);
        }
    }
    None
}

fn find_hidden_index(hiddens: &Vec<HiddenNeuron>, slot: u8) -> (r: Option<usize>)
    ensures
        match r {
            Some(i) => i as int == find_index(hidden_slots_of(hiddens@), slot) && i
                < hiddens@.len() && hiddens@[i as int].slot == slot,
            None => find_index(hidden_slots_of(hiddens@), slot) == -1,
        },
{
    let mut i: usize = 0;
    while i < hiddens.len()
        invariant
            i <= hiddens@.len(),
            forall|j: int| 0 <= j < i ==> (#[trigger] hiddens@[j]).slot != slot,
        decreases hiddens@.len() - i,
    {
        if hiddens[i].slot == slot {
            proof {
                let slots_seq = hidden_slots_of(hiddens@);
                lemma_find_index_characterizes(slots_seq, slot);
                assert(slots_seq[i as int] == hiddens@[i as int].slot);
                assert forall|j: int| 0 <= j < slots_seq.len() && slots_seq[j] == slot implies j
                    >= i by {
                    assert(slots_seq[j] == hiddens@[j].slot);
                }
                assert(find_index(slots_seq, slot) == i as int);
            }
            return Some(i);
        }
        i = i + 1;
    }
    proof {
        let slots_seq = hidden_slots_of(hiddens@);
        lemma_find_index_characterizes(slots_seq, slot);
        assert forall|j: int| 0 <= j < slots_seq.len() implies slots_seq[j] != slot by {
            assert(slots_seq[j] == hiddens@[j].slot);
        }
    }
    None
}

fn find_output_index(outputs: &Vec<OutputNeuron>, slot: u8) -> (r: Option<usize>)
    ensures
        match r {
            Some(i) => i as int == find_index(output_slots_of(outputs@), slot) && i
                < outputs@.len() && outputs@[i as int].slot == slot,
            None => find_index(output_slots_of(outputs@), slot) == -1,
        },
{
    let mut i: usize = 0;
    while i < outputs.len()
        invariant
            i <= outputs@.len(),
            forall|j: int| 0 <= j < i ==> (#[trigger] outputs@[j]).slot != slot,
        decreases outputs@.len() - i,
    {
        if outputs[i].slot == slot {
            proof {
                let slots_seq = output_slots_of(outputs@);
                lemma_find_index_characterizes(slots_seq, slot);
                assert(slots_seq[i as int] == outputs@[i as int].slot);
                assert forall|j: int| 0 <= j < slots_seq.len() && slots_seq[j] == slot implies j
                    >= i by {
                    assert(slots_seq[j] == outputs@[j].slot);
                }
                assert(find_index(slots_seq, slot) == i as int);
            }
            return Some(i);
        }
        i = i + 1;
    }
    proof {
        let slots_seq = output_slots_of(outputs@);
        lemma_find_index_characterizes(slots_seq, slot);
        assert forall|j: int| 0 <= j < slots_seq.len() implies slots_seq[j] != slot by {
            assert(slots_seq[j] == outputs@[j].slot);
        }
    }
    None
}

/// Find or create the input neuron of a sensor slot; fresh neurons start
/// unvisited with a zero latch.
fn resolve_input(inputs: &mut Vec<InputNeuron>, slot: u8) -> (idx: usize)
    requires
        old(inputs)@.len() < usize::MAX,
    ensures
        ({
            let resolved = resolve_slot(input_slots_of(old(inputs)@), slot);
            input_slots_of(final(inputs)@) == resolved.0 && idx as int == resolved.1
        }),
        idx < final(inputs)@.len(),
        old(inputs)@.len() <= final(inputs)@.len() <= old(inputs)@.len() + 1,
        forall|j: int|
            0 <= j < old(inputs)@.len() ==> (#[trigger] final(inputs)@[j]) == old(inputs)@[j],
        forall|j: int|
            old(inputs)@.len() <= j < final(inputs)@.len() ==> (#[trigger] final(inputs)@[j])
                == (InputNeuron { slot, latch: 0, visited: false }),
{
    let found = find_input_index(inputs, slot);
    match found {
        Some(i) => {
            proof {
                assert(input_slots_of(inputs@) =~= resolve_slot(
                    input_slots_of(inputs@),
                    slot,
                ).0);
            }
            i
        },
        None => {
            let idx = inputs.len();
            inputs.push(InputNeuron { slot, latch: 0, visited: false });
            proof {
                assert(input_slots_of(inputs@) =~= resolve_slot(
                    input_slots_of(old(inputs)@),
                    slot,
                ).0);
            }
            idx
        },
    }
}

/// Find or create the hidden neuron of a hidden slot; fresh neurons start
/// unvisited, with a zero latch and no dendrites.
fn resolve_hidden(hiddens: &mut Vec<HiddenNeuron>, slot: u8) -> (idx: usize)
    requires
        old(hiddens)@.len() < usize::MAX,
    ensures
        ({
            let found = find_index(hidden_slots_of(old(hiddens)@), slot);
            (if found >= 0 {
                hidden_model(final(hiddens)@) == hidden_model(old(hiddens)@) && idx as int == found
            } else {
                hidden_model(final(hiddens)@) == hidden_model(old(hiddens)@).push(
                    (slot, Seq::empty()),
                ) && idx as int == old(hiddens)@.len()
            })
        }),
        idx < final(hiddens)@.len(),
        old(hiddens)@.len() <= final(hiddens)@.len() <= old(hiddens)@.len() + 1,
        forall|j: int|
            0 <= j < old(hiddens)@.len() ==> (#[trigger] final(hiddens)@[j]) == old(hiddens)@[j],
        forall|j: int|
            old(hiddens)@.len() <= j < final(hiddens)@.len() ==> (#[trigger] final(hiddens)@[j]).slot == slot && final(hiddens)@[j].latch == 0 && !final(hiddens)@[j].visited
                && final(hiddens)@[j].dendrites@ == Seq::<Dendrite>::empty(),
{
    let found = find_hidden_index(hiddens, slot);
    match found {
        Some(i) => i,
        None => {
            let idx = hiddens.len();
            hiddens.push(HiddenNeuron { slot, dendrites: Vec::new(), latch: 0, visited: false });
            proof {
                assert(hidden_model(hiddens@) =~= hidden_model(old(hiddens)@).push(
                    (slot, Seq::<Dendrite>::empty()),
                ));
            }
            idx
        },
    }
}

/// Attach one dendrite to the hidden neuron of a slot, creating the neuron
/// when the slot is new.
fn attach_hidden(hiddens: &mut Vec<HiddenNeuron>, slot: u8, d: Dendrite)
    requires
        old(hiddens)@.len() < usize::MAX,
    ensures
        hidden_model(final(hiddens)@) == attach_dendrite(hidden_model(old(hiddens)@), slot, d),
        old(hiddens)@.len() <= final(hiddens)@.len() <= old(hiddens)@.len() + 1,
        forall|j: int|
            0 <= j < old(hiddens)@.len() ==> (#[trigger] final(hiddens)@[j]).slot == old(hiddens)@[j].slot && final(hiddens)@[j].latch == old(hiddens)@[j].latch && final(hiddens)@[j].visited == old(hiddens)@[j].visited,
        forall|j: int|
            0 <= j < old(hiddens)@.len() ==> (#[trigger] final(hiddens)@[j]).dendrites@ == old(hiddens)@[j].dendrites@ || final(hiddens)@[j].dendrites@ == old(hiddens)@[j].dendrites@.push(
                d,
            ),
        forall|j: int|
            old(hiddens)@.len() <= j < final(hiddens)@.len() ==> (#[trigger] final(hiddens)@[j]).slot == slot && final(hiddens)@[j].latch == 0 && !final(hiddens)@[j].visited
                && final(hiddens)@[j].dendrites@ == seq![d],
{
    proof {
        assert(hidden_model(hiddens@).map(|j: int, p: (u8, Seq<Dendrite>)| p.0) =~= hidden_slots_of(
            hiddens@,
        ));
    }
    let found = find_hidden_index(hiddens, slot);
    match found {
        Some(i) => {
            let slot0 = hiddens[i].slot;
            let latch0 = hiddens[i].latch;
            let visited0 = hiddens[i].visited;
            let mut taken = HiddenNeuron {
                slot: slot0,
                dendrites: Vec::new(),
                latch: latch0,
                visited: visited0,
            };
            hiddens.set_and_swap(i, &mut taken);
            let HiddenNeuron { slot: s2, dendrites: mut ds, latch: l2, visited: v2 } = taken;
            ds.push(d);
            hiddens[i] = HiddenNeuron { slot: s2, dendrites: ds, latch: l2, visited: v2 };
            proof {
                assert(hidden_model(hiddens@) =~= attach_dendrite(
                    hidden_model(old(hiddens)@),
                    slot,
                    d,
                ));
            }
        },
        None => {
            let mut ds: Vec<Dendrite> = Vec::new();
            ds.push(d);
            hiddens.push(HiddenNeuron { slot, dendrites: ds, latch: 0, visited: false });
            proof {
                assert(hidden_model(hiddens@) =~= attach_dendrite(
                    hidden_model(old(hiddens)@),
                    slot,
                    d,
                ));
            }
        },
    }
}

/// Attach one dendrite to the output neuron of a slot, creating the neuron
/// when the slot is new.
fn attach_output(outputs: &mut Vec<OutputNeuron>, slot: u8, d: Dendrite)
    requires
        old(outputs)@.len() < usize::MAX,
    ensures
        output_model(final(outputs)@) == attach_dendrite(output_model(old(outputs)@), slot, d),
        old(outputs)@.len() <= final(outputs)@.len() <= old(outputs)@.len() + 1,
        forall|j: int|
            0 <= j < old(outputs)@.len() ==> (#[trigger] final(outputs)@[j]).slot == old(outputs)@[j].slot,
        forall|j: int|
            0 <= j < old(outputs)@.len() ==> (#[trigger] final(outputs)@[j]).dendrites@ == old(outputs)@[j].dendrites@ || final(outputs)@[j].dendrites@ == old(outputs)@[j].dendrites@.push(d),
        forall|j: int|
            old(outputs)@.len() <= j < final(outputs)@.len() ==> (#[trigger] final(outputs)@[j]).slot == slot && final(outputs)@[j].dendrites@ == seq![d],
{
    proof {
        assert(output_model(outputs@).map(|j: int, p: (u8, Seq<Dendrite>)| p.0) =~= output_slots_of(
            outputs@,
        ));
    }
    let found = find_output_index(outputs, slot);
    match found {
        Some(i) => {
            let slot0 = outputs[i].slot;
            let mut taken = OutputNeuron { slot: slot0, dendrites: Vec::new() };
            outputs.set_and_swap(i, &mut taken);
            let OutputNeuron { slot: s2, dendrites: mut ds } = taken;
            ds.push(d);
            outputs[i] = OutputNeuron { slot: s2, dendrites: ds };
            proof {
                assert(output_model(outputs@) =~= attach_dendrite(
                    output_model(old(outputs)@),
                    slot,
                    d,
                ));
            }
        },
        None => {
            let mut ds: Vec<Dendrite> = Vec::new();
            ds.push(d);
            outputs.push(OutputNeuron { slot, dendrites: ds });
            proof {
                assert(output_model(outputs@) =~= attach_dendrite(
                    output_model(old(outputs)@),
                    slot,
                    d,
                ));
            }
        },
    }
}

impl Brain {
    /// Build the graph from a sequence of typed connections, deduplicating
    /// by slot: a second connection naming an existing source or destination
    /// slot reuses the existing neuron rather than creating a duplicate.
    /// The arenas come out exactly as [`build_model`] folds them, with every
    /// cache fresh: zero latches and clear visited flags.
    pub fn new(axons: &Vec<Axon>) -> (r: Brain)
        requires
            axons@.len() <= 0x4000_0000,
        ensures
            r.wf(),
            ({
                let model = build_model(axons@, axons@.len() as int);
                input_slots_of(r.inputs@) == model.0 && hidden_model(r.hiddens@) == model.1
                    && output_model(r.outputs@) == model.2
            }),
            forall|j: int|
                0 <= j < r.inputs@.len() ==> (#[trigger] r.inputs@[j]).latch == 0
                    && !r.inputs@[j].visited,
            forall|j: int|
                0 <= j < r.hiddens@.len() ==> (#[trigger] r.hiddens@[j]).latch == 0
                    && !r.hiddens@[j].visited,
    {
        let mut inputs: Vec<InputNeuron> = Vec::new();
        let mut hiddens: Vec<HiddenNeuron> = Vec::new();
        let mut outputs: Vec<OutputNeuron> = Vec::new();
        let mut k: usize = 0;
        proof {
            assert(input_slots_of(inputs@) =~= Seq::<u8>::empty());
            assert(hidden_model(hiddens@) =~= Seq::<(u8, Seq<Dendrite>)>::empty());
            assert(output_model(outputs@) =~= Seq::<(u8, Seq<Dendrite>)>::empty());
        }
        while k < axons.len()
            invariant
                k <= axons@.len(),
                axons@.len() <= 0x4000_0000,
                ({
                    let model = build_model(axons@, k as int);
                    input_slots_of(inputs@) == model.0 && hidden_model(hiddens@) == model.1
                        && output_model(outputs@) == model.2
                }),
                inputs@.len() <= k,
                hiddens@.len() <= 2 * k,
                outputs@.len() <= k,
                forall|j: int|
                    0 <= j < inputs@.len() ==> (#[trigger] inputs@[j]).latch == 0
                        && !inputs@[j].visited,
                forall|j: int|
                    0 <= j < hiddens@.len() ==> (#[trigger] hiddens@[j]).latch == 0
                        && !hiddens@[j].visited,
                forall|j: int|
                    0 <= j < hiddens@.len() ==> (#[trigger] hiddens@[j]).dendrites@.len() <= k,
                forall|j: int|
                    0 <= j < outputs@.len() ==> (#[trigger] outputs@[j]).dendrites@.len() <= k,
                forall|j: int, k2: int|
                    0 <= j < hiddens@.len() && 0 <= k2 < hiddens@[j].dendrites@.len() ==> ref_ok(
                        (#[trigger] hiddens@[j].dendrites@[k2]).axon,
                        inputs@.len() as int,
                        hiddens@.len() as int,
                    ),
                forall|j: int, k2: int|
                    0 <= j < outputs@.len() && 0 <= k2 < outputs@[j].dendrites@.len() ==> ref_ok(
                        (#[trigger] outputs@[j].dendrites@[k2]).axon,
                        inputs@.len() as int,
                        hiddens@.len() as int,
                    ),
            decreases axons@.len() - k,
        {
            let ghost model = build_model(axons@, k as int);
            let a = axons[k];
            match a {
                Axon::Direct { input, output, synapse } => {
                    let idx = resolve_input(&mut inputs, input);
                    let d = Dendrite { axon: Ref { hidden: false, index: idx }, synapse };
                    proof {
                        let resolved = resolve_slot(model.0, input);
                        assert(idx as int == resolved.1 && resolved.1 as usize == idx);
                        assert(d == (Dendrite {
                            axon: Ref { hidden: false, index: resolved.1 as usize },
                            synapse,
                        }));
                    }
                    attach_output(&mut outputs, output, d);
                    proof {
                        let next = build_model(axons@, k as int + 1);
                        assert(next == weave(model, a));
                        assert(input_slots_of(inputs@) == next.0);
                        assert(hidden_model(hiddens@) == next.1);
                        assert(output_model(outputs@) == next.2);
                    }
                },
                Axon::IntoHidden { input, output, synapse } => {
                    let idx = resolve_input(&mut inputs, input);
                    let d = Dendrite { axon: Ref { hidden: false, index: idx }, synapse };
                    proof {
                        let resolved = resolve_slot(model.0, input);
                        assert(idx as int == resolved.1 && resolved.1 as usize == idx);
                    }
                    attach_hidden(&mut hiddens, output, d);
                    proof {
                        let next = build_model(axons@, k as int + 1);
                        assert(next == weave(model, a));
                        assert(input_slots_of(inputs@) == next.0);
                        assert(hidden_model(hiddens@) == next.1);
                        assert(output_model(outputs@) == next.2);
                    }
                },
                Axon::InterHidden { input, output, synapse } => {
                    proof {
                        assert(hidden_model(hiddens@).map(|j: int, p: (u8, Seq<Dendrite>)| p.0)
                            =~= hidden_slots_of(hiddens@));
                    }
                    let idx = resolve_hidden(&mut hiddens, input);
                    let d = Dendrite { axon: Ref { hidden: true, index: idx }, synapse };
                    attach_hidden(&mut hiddens, output, d);
                    proof {
                        let next = build_model(axons@, k as int + 1);
                        assert(next == weave(model, a));
                        assert(input_slots_of(inputs@) == next.0);
                        assert(hidden_model(hiddens@) == next.1);
                        assert(output_model(outputs@) == next.2);
                    }
                },
                Axon::FromHidden { input, output, synapse } => {
                    proof {
                        assert(hidden_model(hiddens@).map(|j: int, p: (u8, Seq<Dendrite>)| p.0)
                            =~= hidden_slots_of(hiddens@));
                    }
                    let idx = resolve_hidden(&mut hiddens, input);
                    let d = Dendrite { axon: Ref { hidden: true, index: idx }, synapse };
                    attach_output(&mut outputs, output, d);
                    proof {
                        let next = build_model(axons@, k as int + 1);
                        assert(next == weave(model, a));
                        assert(input_slots_of(inputs@) == next.0);
                        assert(hidden_model(hiddens@) == next.1);
                        assert(output_model(outputs@) == next.2);
                    }
                },
            }
            k = k + 1;
        }
        Brain { inputs, hiddens, outputs }
    }
}

/// A source already visited within the current tick is read, never
/// re-evaluated: its current latch comes back and the memoization state is
/// untouched. This is the general mechanism behind cycle safety — a neuron
/// that transitively feeds itself sees itself visited on re-entry and
/// receives its previous tick's latch, zero on a fresh brain.
pub proof fn lemma_visited_source_reads_latch(
    topo: Seq<Seq<Dendrite>>,
    st: EvalState,
    r: Ref,
    senses: Seq<i64>,
    fuel: nat,
)
    requires
        r.hidden ==> r.index < st.hidden_latch.len() && r.index < topo.len()
            && st.hidden_visited[r.index as int],
        !r.hidden ==> r.index < st.input_latch.len() && st.input_visited[r.index as int],
    ensures
        eval_ref(topo, st, r, senses, fuel) == (
            st,
            if r.hidden {
                st.hidden_latch[r.index as int] as int
            } else {
                st.input_latch[r.index as int] as int
            },
        ),
{
}

/// Cycle safety: evaluating an unvisited hidden neuron whose only dendrite
/// references the neuron itself terminates in one pass and feeds the
/// neuron's own latch from *before* the call back into it — a one-tick
/// delayed feedback. On a fresh brain that latch is zero, so the first
/// self-reference reads zero and the neuron settles at the tangent of
/// nothing: zero, a finite signal strictly inside `(-ONE, ONE)`.
pub proof fn lemma_cycle_reads_initial_latch(
    topo: Seq<Seq<Dendrite>>,
    st: EvalState,
    i: int,
    senses: Seq<i64>,
    fuel: nat,
)
    requires
        0 <= i < st.hidden_latch.len(),
        0 <= i < st.hidden_visited.len(),
        0 <= i < topo.len(),
        topo[i].len() == 1,
        topo[i][0].axon.hidden,
        topo[i][0].axon.index == i,
        !st.hidden_visited[i],
        st.hidden_latch[i] == 0,
        fuel >= 1,
    ensures
        ({
            let evaluated = eval_ref(
                topo,
                st,
                Ref { hidden: true, index: i as usize },
                senses,
                fuel,
            );
            evaluated.1 == tanh_spec(fmul(topo[i][0].synapse@, st.hidden_latch[i] as int))
                && evaluated.1 == 0 && -ONE < evaluated.1 < ONE
        }),
{
    let r = Ref { hidden: true, index: i as usize };
    let marked = EvalState { hidden_visited: st.hidden_visited.update(i, true), ..st };
    let ds = topo[i];
    let prior = eval_prefix(topo, marked, ds, 0, senses, (fuel - 1) as nat);
    assert(prior.0 == marked && prior.1 == 0);
    let sourced = eval_ref(topo, marked, ds[0].axon, senses, (fuel - 1) as nat);
    assert(marked.hidden_visited[i]);
    assert(sourced.0 == marked && sourced.1 == 0);
    let w = topo[i][0].synapse@;
    assert(fmul(w, 0) == 0) by {
        assert(w * 0 == 0) by (nonlinear_arith);
        assert(abs_spec(w) * abs_spec(0) == 0) by (nonlinear_arith);
    }
    crate::trig::lemma_tanh_zero();
}

impl Neuron for InputNeuron {
    open spec fn slot_spec(&self) -> u8 {
        self.slot
    }

    fn index(&self) -> u8 {
        self.slot
    }
}

impl Neuron for HiddenNeuron {
    open spec fn slot_spec(&self) -> u8 {
        self.slot
    }

    fn index(&self) -> u8 {
        self.slot
    }
}

impl Neuron for OutputNeuron {
    open spec fn slot_spec(&self) -> u8 {
        self.slot
    }

    fn index(&self) -> u8 {
        self.slot
    }
}

} // verus!

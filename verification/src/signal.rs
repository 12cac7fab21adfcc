//! Saturating scalar primitives of the neural engine: the bounded [`Signal`]
//! that flows between neurons, the bounded [`Amplifier`] weight applied at a
//! dendrite, and the two aggregation rules that fold a neuron's weighted
//! inputs into one value.

use vstd::prelude::*;

use crate::fixed::{abs_spec, clamp, clamp_spec, fmul, mul_fp, ONE};
use crate::trig::{tanh_fp, tanh_mag, tanh_spec};

verus! {

/// The weight amplitude: synaptic weights are capped to `[-4, 4]` real
/// units.
pub const AMPLITUDE: i64 = 4;

/// A scalar capped to the unit interval `[0, ONE]`: the value a sensor
/// reports and the value an actuator receives.
#[derive(Clone, Copy, Debug)]
pub struct Signal {
    value: i64,
}

impl View for Signal {
    type V = int;

    closed spec fn view(&self) -> int {
        self.value as int
    }
}

impl Signal {
    #[verifier::type_invariant]
    spec fn wf(self) -> bool {
        0 <= self.value <= ONE
    }

    /// Cap an arbitrary scalar into the unit interval.
    pub fn cap(value: i64) -> (r: Signal)
        ensures
            r@ == clamp_spec(value as int, 0, ONE as int),
            0 <= r@ <= ONE,
    {
        Signal { value: clamp(value, 0, ONE) }
    }

    /// The raw fixed-point value, within `[0, ONE]`.
    pub fn value(self) -> (r: i64)
        ensures
            r == self@,
            0 <= r <= ONE,
    {
        proof {
            use_type_invariant(&self);
        }
        self.value
    }

}

impl Signal {
    /// A boolean reading as a saturated signal: all or nothing.
    pub fn from_bool(value: bool) -> (r: Signal)
        ensures
            r@ == if value {
                ONE as int
            } else {
                0
            },
    {
        if value {
            Signal { value: ONE }
        } else {
            Signal { value: 0 }
        }
    }
}

/// A synaptic weight capped to `[-AMPLITUDE, AMPLITUDE]` real units, owned
/// by the dendrite that applies it.
#[derive(Clone, Copy, Debug)]
pub struct Amplifier {
    value: i64,
}

impl View for Amplifier {
    type V = int;

    closed spec fn view(&self) -> int {
        self.value as int
    }
}

impl Amplifier {
    #[verifier::type_invariant]
    spec fn wf(self) -> bool {
        -(AMPLITUDE * ONE) <= self.value <= AMPLITUDE * ONE
    }

    /// Cap an arbitrary scalar into the weight range.
    pub fn new(value: i64) -> (r: Amplifier)
        ensures
            r@ == clamp_spec(value as int, -(AMPLITUDE * ONE) as int, (AMPLITUDE * ONE) as int),
    {
        Amplifier { value: clamp(value, -(AMPLITUDE * ONE), AMPLITUDE * ONE) }
    }

    /// The raw fixed-point weight, within `[-AMPLITUDE * ONE, AMPLITUDE * ONE]`.
    pub fn value(self) -> (r: i64)
        ensures
            r == self@,
            abs_spec(r as int) <= AMPLITUDE * ONE,
    {
        proof {
            use_type_invariant(&self);
        }
        self.value
    }

    /// Apply the weight to an upstream signal: a truncating fixed-point
    /// product.
    pub fn amplify(self, signal: i64) -> (r: i64)
        requires
            -ONE <= signal <= ONE,
        ensures
            r == fmul(self@, signal as int),
            abs_spec(r as int) <= AMPLITUDE * ONE,
    {
        proof {
            use_type_invariant(&self);
        }
        let r = mul_fp(self.value, signal);
        proof {
            assert(abs_spec(r as int) * (ONE as int) <= (AMPLITUDE * ONE) as int * (ONE as int))
                by (nonlinear_arith)
                requires
                    abs_spec(r as int) * (ONE as int) <= abs_spec(self.value as int) * abs_spec(
                        signal as int,
                    ),
                    abs_spec(self.value as int) <= (AMPLITUDE * ONE) as int,
                    abs_spec(signal as int) <= ONE as int,
            ;
            assert(abs_spec(r as int) <= (AMPLITUDE * ONE) as int) by (nonlinear_arith)
                requires
                    abs_spec(r as int) * (ONE as int) <= (AMPLITUDE * ONE) as int * (ONE as int),
            ;
        }
        r
    }
}

/// The sum of a sequence of fixed-point terms.
pub open spec fn sum64(s: Seq<i64>) -> int
    decreases s.len(),
{
    if s.len() == 0 {
        0
    } else {
        sum64(s.drop_last()) + s.last()
    }
}

/// The weighted sum behind the tangential aggregate: each signal scaled by
/// its weight, truncating at the fixed-point scale.
pub open spec fn weighted_sum(signals: Seq<int>, weights: Seq<int>) -> int
    decreases signals.len(),
{
    if signals.len() == 0 || signals.len() != weights.len() {
        0
    } else {
        weighted_sum(signals.drop_last(), weights.drop_last()) + fmul(
            weights.last(),
            signals.last(),
        )
    }
}

/// The hyperbolic tangent approximation never reaches the unit bounds,
/// whatever its argument.
pub proof fn lemma_tanh_bounded(x: int)
    ensures
        -(ONE as int) < tanh_spec(x) < ONE as int,
{
    if x >= 0 {
        lemma_tanh_mag_bounded(x);
    } else {
        lemma_tanh_mag_bounded(-x);
    }
}

proof fn lemma_tanh_mag_bounded(a: int)
    requires
        a >= 0,
    ensures
        0 <= tanh_mag(a) < ONE as int,
{
    if a < 3 * (ONE as int) {
        let num = a * (27 * (ONE as int) * (ONE as int) + a * a);
        let den = 27 * (ONE as int) * (ONE as int) + 9 * a * a;
        assert(den * (ONE as int) - num == (3 * (ONE as int) - a) * (3 * (ONE as int) - a) * (3 * (
        ONE as int) - a) && den > 0 && num >= 0) by (nonlinear_arith)
            requires
                num == a * (27 * (ONE as int) * (ONE as int) + a * a),
                den == 27 * (ONE as int) * (ONE as int) + 9 * a * a,
                0 <= a < 3 * (ONE as int),
        ;
        assert(0 < (3 * (ONE as int) - a) * (3 * (ONE as int) - a) * (3 * (ONE as int) - a))
            by (nonlinear_arith)
            requires
                0 < 3 * (ONE as int) - a,
        ;
        assert(num / den < ONE as int) by (nonlinear_arith)
            requires
                0 <= num,
                0 < den,
                num < den * (ONE as int),
        ;
        assert(0 <= num / den) by (nonlinear_arith)
            requires
                0 <= num,
                0 < den,
        ;
    }
}

/// Aggregation boundedness: for any finite list of signals within the unit
/// range and weights within the amplitude range, the tangential aggregate of
/// the weighted signals lies strictly inside the open interval
/// `(-ONE, ONE)`.
pub proof fn lemma_aggregate_bounded(signals: Seq<int>, weights: Seq<int>)
    requires
        signals.len() == weights.len(),
        forall|i: int| 0 <= i < signals.len() ==> -ONE <= #[trigger] signals[i] <= ONE,
        forall|i: int|
            0 <= i < weights.len() ==> -(AMPLITUDE * ONE) <= #[trigger] weights[i] <= AMPLITUDE
                * ONE,
    ensures
        -(ONE as int) < tanh_spec(weighted_sum(signals, weights)) < ONE as int,
{
    lemma_tanh_bounded(weighted_sum(signals, weights));
}

/// The default aggregator: the hyperbolic tangent of the plain sum of the
/// incoming weighted terms.
pub struct Tangential;

impl Tangential {
    /// Fold a list of weighted terms into one bounded value. The result is
    /// strictly inside `(-ONE, ONE)`, however many terms arrive.
    pub fn aggregate(terms: &Vec<i64>) -> (r: i64)
        requires
            terms@.len() <= 0x1_0000_0000,
            forall|i: int|
                0 <= i < terms@.len() ==> abs_spec(terms@[i] as int) <= AMPLITUDE * ONE,
        ensures
            r == tanh_spec(sum64(terms@)),
            -ONE < r < ONE,
    {
        let sum = sum_terms(terms);
        tanh_fp(sum)
    }
}

/// The comparison aggregator: the capped arithmetic mean of the incoming
/// weighted terms, zero when there are none.
pub struct Linear;

/// The capped mean of a term sequence, truncating toward zero.
pub open spec fn linear_mean(s: Seq<i64>) -> int {
    if s.len() == 0 {
        0
    } else if sum64(s) >= 0 {
        clamp_spec(sum64(s) / s.len() as int, -(ONE as int), ONE as int)
    } else {
        clamp_spec(-((-sum64(s)) / s.len() as int), -(ONE as int), ONE as int)
    }
}

impl Linear {
    /// Fold a list of weighted terms into their capped mean.
    pub fn aggregate(terms: &Vec<i64>) -> (r: i64)
        requires
            terms@.len() <= 0x1_0000_0000,
            forall|i: int|
                0 <= i < terms@.len() ==> abs_spec(terms@[i] as int) <= AMPLITUDE * ONE,
        ensures
            r == linear_mean(terms@),
            -ONE <= r <= ONE,
    {
        if terms.len() == 0 {
            return 0;
        }
        let sum = sum_terms(terms);
        let len = terms.len() as i64;
        let mean: i64 = if sum >= 0 {
            sum / len
        } else {
            -((-sum) / len)
        };
        clamp(mean, -ONE, ONE)
    }
}

fn sum_terms(terms: &Vec<i64>) -> (sum: i64)
    requires
        terms@.len() <= 0x1_0000_0000,
        forall|i: int| 0 <= i < terms@.len() ==> abs_spec(terms@[i] as int) <= AMPLITUDE * ONE,
    ensures
        sum == sum64(terms@),
        abs_spec(sum as int) <= terms@.len() * (AMPLITUDE * ONE),
{
    let mut sum: i64 = 0;
    let mut i: usize = 0;
    proof {
        assert(terms@.take(0) =~= Seq::<i64>::empty());
    }
    while i < terms.len()
        invariant
            0 <= i <= terms@.len(),
            terms@.len() <= 0x1_0000_0000,
            forall|j: int|
                0 <= j < terms@.len() ==> abs_spec(terms@[j] as int) <= AMPLITUDE * ONE,
            sum == sum64(terms@.take(i as int)),
            abs_spec(sum as int) <= i * (AMPLITUDE * ONE),
        decreases terms@.len() - i,
    {
        proof {
            assert(terms@.take(i as int + 1).drop_last() =~= terms@.take(i as int));
            assert(terms@.take(i as int + 1).last() == terms@[i as int]);
            assert(i * ((AMPLITUDE * ONE) as int) + (AMPLITUDE * ONE) as int == (i + 1) * ((
            AMPLITUDE * ONE) as int)) by (nonlinear_arith);
            assert(i * ((AMPLITUDE * ONE) as int) <= 0x1_0000_0000 * ((AMPLITUDE * ONE) as int))
                by (nonlinear_arith)
                requires
                    0 <= i <= 0x1_0000_0000,
            ;
        }
        sum = sum + terms[i];
        i = i + 1;
    }
    proof {
        assert(terms@.take(terms@.len() as int) =~= terms@);
    }
    sum
}

} // verus!

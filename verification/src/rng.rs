//! The library's window onto the `rand` crate: every stochastic draw the
//! simulation makes (gene seeds, crossover coin flips, placement, sensor
//! noise) goes through the trusted declarations here, and the verified
//! helpers below them map raw draws into bounded scalars.

use vstd::prelude::*;

use crate::fixed::ONE;

verus! {

/// Relies on rand::random: a fresh draw from the thread-local generator.
/// Nothing can be promised of a random value.
pub assume_specification<T>[ rand::random::<T> ]() -> (r: T)
    where
        rand::distributions::Standard: rand::distributions::Distribution<T>,
;

/// Relies on rand::Rng::gen_range on the range `0..len`: a uniformly random
/// value below `len`. The call panics only on an empty range, which the
/// bound rules out.
#[verifier::external_body]
pub fn random_below(len: usize) -> (r: usize)
    requires
        len > 0,
    ensures
        r < len,
{
    rand::Rng::gen_range(&mut rand::thread_rng(), 0..len)
}

/// Relies on rand::seq::SliceRandom::shuffle: a random permutation of the
/// slice, in place, so the same values remain and the length is unchanged.
#[verifier::external_body]
pub fn shuffle(values: &mut Vec<usize>)
    ensures
        final(values)@.to_multiset() == old(values)@.to_multiset(),
        final(values)@.len() == old(values)@.len(),
{
    rand::seq::SliceRandom::shuffle(values.as_mut_slice(), &mut rand::thread_rng());
}

/// Relies on rand::seq::SliceRandom::choose: Some uniformly chosen element
/// of the slice when it is non-empty, None when it is empty.
#[verifier::external_body]
pub fn choose_from(values: &Vec<usize>) -> (r: Option<usize>)
    ensures
        match r {
            Some(v) => values@.len() > 0 && values@.contains(v),
            None => values@.len() == 0,
        },
{
    rand::seq::SliceRandom::choose(values.as_slice(), &mut rand::thread_rng()).copied()
}

/// A random scalar in `[0, ONE)`: the unit-interval draw behind sensor
/// noise and mutation coin flips.
pub fn random_unit() -> (r: i64)
    ensures
        0 <= r < ONE,
{
    random_scaled(ONE)
}

/// A random scalar in `[0, max)`, scaled down from one 32-bit draw.
pub fn random_scaled(max: i64) -> (r: i64)
    requires
        0 < max <= 0x1_0000_0000,
    ensures
        0 <= r < max,
{
    let x: u32 = rand::random::<u32>();
    proof {
        assert((x as u64) * (max as u64) <= 0xffff_ffffu64 * 0x1_0000_0000u64) by (nonlinear_arith)
            requires
                x <= 0xffff_ffffu64,
                0 < max <= 0x1_0000_0000u64,
        ;
    }
    let wide: u64 = (x as u64) * (max as u64);
    let shifted: u64 = wide >> 32;
    proof {
        vstd::bits::lemma_u64_shr_is_div(wide, 32);
        assert(wide < 0x1_0000_0000u64 * (max as u64)) by (nonlinear_arith)
            requires
                wide == (x as u64) * (max as u64),
                x < 0x1_0000_0000u64,
                0 < max,
        ;
        assert(wide as int / 0x1_0000_0000 < max as int) by (nonlinear_arith)
            requires
                0 < max,
                0 <= wide < 0x1_0000_0000u64 * (max as u64),
        ;
        vstd::arithmetic::power2::lemma2_to64();
    }
    shifted as i64
}

} // verus!

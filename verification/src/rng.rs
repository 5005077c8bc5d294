//! Random draws.
//!
//! All randomness comes from the `rand` crate. The functions of this module
//! are the only place where it is called; their contracts are taken on trust
//! and say what holds of every draw, never which value is drawn.

use rand::distributions::Distribution;
use rand::distributions::WeightedIndex;
use rand::rngs::StdRng;
use rand::seq::SliceRandom;
use rand::Rng;
use rand::SeedableRng;
use vstd::prelude::*;

verus! {

/// `rand::rngs::StdRng`, the generator every draw is taken from.
#[verifier::external_type_specification]
#[verifier::external_body]
pub struct ExStdRng(StdRng);

/// A `rand::distributions::WeightedIndex<u8>`: a sampler of indices by
/// weight. Its bounds name traits of `rand`, so it is held whole.
#[verifier::external_body]
pub struct WeightedChoice {
    inner: WeightedIndex<u8>,
}

/// The weights a `WeightedChoice` was built from, in order.
pub uninterp spec fn weights_of(index: WeightedChoice) -> Seq<u8>;

/// Sum of a sequence of weights.
pub open spec fn weight_total(weights: Seq<u8>) -> int
    decreases weights.len(),
{
    if weights.len() == 0 {
        0
    } else {
        weight_total(weights.drop_last()) + weights.last() as int
    }
}

/// `StdRng::from_seed`: a generator whose stream is fixed by `seed`.
#[verifier::external_body]
pub(crate) fn rng_from_seed(seed: [u8; 32]) -> StdRng {
    StdRng::from_seed(seed)
}

/// `Rng::gen_range` on a half-open range of `usize`: the draw lies in
/// `low..high`. The range must not be empty, since `rand` panics on one.
#[verifier::external_body]
pub(crate) fn gen_range_usize(rng: &mut StdRng, low: usize, high: usize) -> (r: usize)
    requires
        low < high,
    ensures
        low <= r < high,
{
    rng.gen_range(low..high)
}

/// `Rng::gen_range` on a closed range of `i64`: the draw lies in
/// `low..=high`. The range must not be empty, since `rand` panics on one.
#[verifier::external_body]
pub(crate) fn gen_range_i64(rng: &mut StdRng, low: i64, high: i64) -> (r: i64)
    requires
        low <= high,
    ensures
        low <= r <= high,
{
    rng.gen_range(low..=high)
}

/// `Rng::gen::<bool>`: a coin flip, of which nothing is promised.
#[verifier::external_body]
pub(crate) fn gen_bool(rng: &mut StdRng) -> bool {
    rng.gen()
}

/// `Rng::gen::<u32>`: any `u32`.
#[verifier::external_body]
pub(crate) fn gen_u32(rng: &mut StdRng) -> u32 {
    rng.gen()
}

/// `SliceRandom::choose`: `None` exactly for an empty pool, else a reference
/// to one of its elements.
#[verifier::external_body]
pub(crate) fn choose_from<'a, T>(rng: &mut StdRng, pool: &'a Vec<T>) -> (r: Option<&'a T>)
    ensures
        r is None <==> pool@.len() == 0,
        r matches Some(item) ==> exists|i: int| 0 <= i < pool@.len() && pool@[i] == *item,
{
    pool.choose(rng)
}

/// `WeightedIndex::new` over `u8` weights. `rand` rejects an empty list and
/// an all-zero one, and adds the weights up in `u8`, so both are ruled out
/// here together with a sum that does not fit.
#[verifier::external_body]
pub(crate) fn weighted_index(weights: &Vec<u8>) -> (r: WeightedChoice)
    requires
        weights@.len() > 0,
        0 < weight_total(weights@) <= u8::MAX,
    ensures
        weights_of(r) == weights@,
{
    WeightedChoice { inner: WeightedIndex::new(weights.iter()).unwrap() }
}

/// `WeightedIndex::sample`: an index into the weights, never that of a zero
/// weight.
#[verifier::external_body]
pub(crate) fn sample_weighted(index: &WeightedChoice, rng: &mut StdRng) -> (r: usize)
    ensures
        r < weights_of(*index).len(),
        weights_of(*index)[r as int] > 0,
{
    index.inner.sample(rng)
}

} // verus!

//! The library's only sources of randomness, taken on trust from the
//! `rand` crate: a categorical distribution over integer weights and a few
//! plain random draws.

use vstd::prelude::*;
use rand::Rng;
use rand::distributions::Distribution;

verus! {

/// A categorical distribution over integer weights; holds
/// `rand::distributions::WeightedIndex`, which Verus cannot declare
/// directly because of its `SampleUniform` bound.
#[verifier::external_body]
pub struct WeightedDist {
    inner: rand::distributions::WeightedIndex<i64>,
}

/// The weights a `WeightedDist` was built over.
pub uninterp spec fn weighted_weights(d: WeightedDist) -> Seq<i64>;

/// Sum of a sequence of weights.
pub open spec fn sum_weights(s: Seq<i64>) -> int
    decreases s.len(),
{
    if s.len() == 0 {
        0
    } else {
        sum_weights(s.drop_last()) + s.last()
    }
}

/// Relies on `rand::distributions::WeightedIndex::new`: it returns `Ok`
/// exactly when the weights are non-empty, none is negative, and their sum
/// is positive. The bounds in `requires` keep the summation inside the
/// crate from overflowing `i64`.
#[verifier::external_body]
pub(crate) fn new_weighted_index(weights: &Vec<i64>) -> (r: Option<WeightedDist>)
    requires
        weights@.len() <= 1_000_000_000,
        forall|i: int| 0 <= i < weights@.len() ==> 0 <= #[trigger] weights@[i] <= 2_000_000,
    ensures
        r matches Some(d) ==> weighted_weights(d) == weights@,
        r is Some <==> (weights@.len() > 0 && sum_weights(weights@) > 0),
{
    rand::distributions::WeightedIndex::new(weights).ok().map(|inner| WeightedDist { inner })
}

/// Relies on `rand::distributions::WeightedIndex::sample`: the returned
/// index is always within the weight list the distribution was built over.
/// Which index comes back is random; nothing more is assumed.
#[verifier::external_body]
pub(crate) fn sample_weighted(d: &WeightedDist) -> (r: usize)
    requires
        weighted_weights(*d).len() > 0,
    ensures
        r < weighted_weights(*d).len(),
{
    d.inner.sample(&mut rand::thread_rng())
}

/// Relies on `rand::Rng::gen_range`: returns a uniformly random byte.
/// Nothing is assumed of the value.
#[verifier::external_body]
pub(crate) fn random_u8() -> u8 {
    rand::thread_rng().gen_range(0..=255u8)
}

pub open spec fn is_alphanumeric_char(c: char) -> bool {
    ('a' <= c && c <= 'z') || ('A' <= c && c <= 'Z') || ('0' <= c && c <= '9')
}

/// Relies on `rand::distributions::Alphanumeric`: sampling it yields ASCII
/// letters and digits, one byte each, so taking `len` of them gives a
/// string of exactly `len` alphanumeric characters.
#[verifier::external_body]
pub(crate) fn random_alphanumeric(len: usize) -> (r: String)
    ensures
        r@.len() == len,
        forall|i: int| 0 <= i < r@.len() ==> is_alphanumeric_char(#[trigger] r@[i]),
{
    rand::thread_rng()
        .sample_iter(&rand::distributions::Alphanumeric)
        .take(len)
        .map(char::from)
        .collect()
}

} // verus!

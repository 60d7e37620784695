//! Validation of an IFS map set. A system is seven micro-unit
//! coefficients `[a, b, d, e, c, f, p]`; the last is its probability
//! weight. Weights must lie in `[0, 1 + epsilon]` and sum to at most
//! `1 + epsilon`, where epsilon is exactly one micro-unit (1e-6).

use vstd::prelude::*;
use crate::decimal::{format_fixed, render_fixed};
use crate::fixed::SCALE;
use crate::text::chars_to_string;

verus! {

/// The slack band absorbing accumulated rounding from repeated edits:
/// exactly 1e-6 in micro-units.
pub const EPSILON: i64 = 1;

/// Why a map set was rejected; each variant carries the offending value.
#[derive(Clone, Copy, Debug, PartialEq, Eq, Structural)]
pub enum ValidationError {
    /// A weight outside `[0, 1 + epsilon]`, carrying that weight.
    BadProbability(i64),
    /// A weight sum above `1 + epsilon`, carrying the sum.
    BadProbabilitySum(i128),
    /// The map set is empty.
    NoSystems,
}

/// Saturate a wide value at the `i64` range.
pub open spec fn clamp_to_i64(v: int) -> int {
    if v > i64::MAX {
        i64::MAX as int
    } else if v < i64::MIN {
        i64::MIN as int
    } else {
        v
    }
}

pub open spec fn weight_in_range(w: i64) -> bool {
    0 <= w <= SCALE + EPSILON
}

/// Sum of the weights of a map set.
pub open spec fn weight_sum(s: Seq<[i64; 7]>) -> int
    decreases s.len(),
{
    if s.len() == 0 {
        0
    } else {
        weight_sum(s.drop_last()) + s.last()[6]
    }
}

/// Every weight of the set lies in the allowed band.
pub open spec fn all_weights_in_range(s: Seq<[i64; 7]>) -> bool {
    forall|i: int| 0 <= i < s.len() ==> weight_in_range(#[trigger] s[i][6])
}

/// A map set the validator accepts.
pub open spec fn valid_map_set(s: Seq<[i64; 7]>) -> bool {
    s.len() > 0 && all_weights_in_range(s) && weight_sum(s) <= SCALE + EPSILON
}

/// The set must be non-empty.
pub fn systems_exist(systems: &Vec<[i64; 7]>) -> (r: Result<(), ValidationError>)
    ensures
        r is Ok <==> systems@.len() > 0,
        r is Err ==> r == Err::<(), ValidationError>(ValidationError::NoSystems),
{
    if systems.len() > 0 {
        Ok(())
    } else {
        Err(ValidationError::NoSystems)
    }
}

/// Every weight must lie in `[0, 1 + epsilon]`; the first offender is
/// reported with its value.
pub fn probability_range(systems: &Vec<[i64; 7]>) -> (r: Result<(), ValidationError>)
    ensures
        r is Ok <==> all_weights_in_range(systems@),
        r matches Err(e) ==> exists|i: int|
            {
                &&& 0 <= i < systems@.len()
                &&& !weight_in_range(#[trigger] systems@[i][6])
                &&& e == ValidationError::BadProbability(systems@[i][6])
                &&& forall|j: int| 0 <= j < i ==> weight_in_range(#[trigger] systems@[j][6])
            },
{
    let mut i: usize = 0;
    while i < systems.len()
        invariant
            i <= systems@.len(),
            forall|j: int| 0 <= j < i ==> weight_in_range(#[trigger] systems@[j][6]),
        decreases systems@.len() - i,
    {
        let w = systems[i][6];
        if w < 0 || w > SCALE + EPSILON {
            return Err(ValidationError::BadProbability(w));
        }
        i = i + 1;
    }
    Ok(())
}

/// The weights must sum to at most `1 + epsilon`; a violating sum is
/// reported. The sum is exact: weights are bounded by the range check's
/// band in every accepted set, and even unchecked weights cannot overflow
/// the wide accumulator.
pub fn probability_sum(systems: &Vec<[i64; 7]>) -> (r: Result<(), ValidationError>)
    ensures
        r is Ok <==> weight_sum(systems@) <= SCALE + EPSILON,
        r is Err ==> r == Err::<(), ValidationError>(
            ValidationError::BadProbabilitySum(weight_sum(systems@) as i128),
        ),
{
    let mut i: usize = 0;
    let mut sum: i128 = 0;
    proof {
        assert(systems@.subrange(0, 0) =~= Seq::<[i64; 7]>::empty());
    }
    while i < systems.len()
        invariant
            i <= systems@.len(),
            sum == weight_sum(systems@.subrange(0, i as int)),
            -0x8000_0000_0000_0000_i128 * i <= sum <= 0x8000_0000_0000_0000_i128 * i,
        decreases systems@.len() - i,
    {
        let w = systems[i][6];
        proof {
            assert(systems@.subrange(0, i + 1).drop_last() =~= systems@.subrange(0, i as int));
            assert(systems@.subrange(0, i + 1).last() == systems@[i as int]);
            assert(-0x8000_0000_0000_0000_i128 * (i + 1) <= sum + w <= 0x8000_0000_0000_0000_i128
                * (i + 1)) by (nonlinear_arith)
                requires
                    -0x8000_0000_0000_0000_i128 * i <= sum <= 0x8000_0000_0000_0000_i128 * i,
                    -0x8000_0000_0000_0000_i128 <= w <= 0x8000_0000_0000_0000_i128,
            ;
            assert(0x8000_0000_0000_0000_i128 * (i + 1) <= 0x8000_0000_0000_0000_i128
                * 0x1_0000_0000_0000_0000_i128) by (nonlinear_arith)
                requires
                    i + 1 <= 0x1_0000_0000_0000_0000_i128,
            ;
        }
        sum = sum + w as i128;
        i = i + 1;
    }
    proof {
        assert(systems@.subrange(0, systems@.len() as int) =~= systems@);
    }
    if sum > (SCALE + EPSILON) as i128 {
        Err(ValidationError::BadProbabilitySum(sum))
    } else {
        Ok(())
    }
}

/// The three checks in order, first failure winning: existence, per-weight
/// range, weight sum. `Ok` exactly on valid map sets.
pub fn validate(systems: &Vec<[i64; 7]>) -> (r: Result<(), ValidationError>)
    ensures
        r is Ok <==> valid_map_set(systems@),
        systems@.len() == 0 ==> r == Err::<(), ValidationError>(ValidationError::NoSystems),
        systems@.len() > 0 && !all_weights_in_range(systems@) ==> (r matches Err(e) && exists|
            i: int,
        |
            {
                &&& 0 <= i < systems@.len()
                &&& !weight_in_range(#[trigger] systems@[i][6])
                &&& e == ValidationError::BadProbability(systems@[i][6])
                &&& forall|j: int| 0 <= j < i ==> weight_in_range(#[trigger] systems@[j][6])
            }),
        systems@.len() > 0 && all_weights_in_range(systems@) && weight_sum(systems@) > SCALE
            + EPSILON ==> r == Err::<(), ValidationError>(
            ValidationError::BadProbabilitySum(weight_sum(systems@) as i128),
        ),
{
    systems_exist(systems)?;
    probability_range(systems)?;
    probability_sum(systems)?;
    Ok(())
}

impl ValidationError {
    /// The short human-readable summary of the error.
    pub fn summary(&self) -> (r: String)
        ensures
            self is BadProbability ==> r@ == "Probability have to be in range 0..=1"@,
            self is BadProbabilitySum ==> r@ == "Probability sum have to be lower than 1"@,
            self is NoSystems ==> r@
                == "The provided list of systems is empty. At least one system is required."@,
    {
        match self {
            ValidationError::BadProbability(_) => String::from_str(
                "Probability have to be in range 0..=1",
            ),
            ValidationError::BadProbabilitySum(_) => String::from_str(
                "Probability sum have to be lower than 1",
            ),
            ValidationError::NoSystems => String::from_str(
                "The provided list of systems is empty. At least one system is required.",
            ),
        }
    }

    /// The offending value as decimal text, where the error carries one.
    /// A sum beyond the range of `i64` is shown saturated at that range.
    pub fn additional_info(&self) -> (r: Option<String>)
        ensures
            r is Some <==> !(self is NoSystems),
            self matches ValidationError::BadProbability(v) ==> r matches Some(s) && s@ == seq![
                'V',
                'a',
                'l',
                'u',
                'e',
                ':',
                ' ',
            ] + render_fixed(v as int),
            self matches ValidationError::BadProbabilitySum(v) ==> r matches Some(s) && s@ == seq![
                'S',
                'u',
                'm',
                ' ',
                'i',
                's',
                ' ',
            ] + render_fixed(clamp_to_i64(v as int)),
    {
        match self {
            ValidationError::BadProbability(v) => {
                let mut text: Vec<char> = vec!['V', 'a', 'l', 'u', 'e', ':', ' '];
                let mut digits = format_fixed(*v);
                text.append(&mut digits);
                Some(chars_to_string(&text))
            },
            ValidationError::BadProbabilitySum(v) => {
                let clamped: i64 = if *v > i64::MAX as i128 {
                    i64::MAX
                } else if *v < i64::MIN as i128 {
                    i64::MIN
                } else {
                    *v as i64
                };
                let mut text: Vec<char> = vec!['S', 'u', 'm', ' ', 'i', 's', ' '];
                let mut digits = format_fixed(clamped);
                text.append(&mut digits);
                Some(chars_to_string(&text))
            },
            ValidationError::NoSystems => None,
        }
    }
}

} // verus!

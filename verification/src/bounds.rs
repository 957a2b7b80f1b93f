//! Interquartile outlier bounds of a column.

use crate::percentile::{
    lemma_ascending, lemma_percentile_is_value, lemma_percentile_monotone, percentile_of,
    rank_for, sort_ascending, EmptyInputError,
};
use vstd::prelude::*;

verus! {

/// The inclusive range outside which a value of a column counts as an
/// outlier. Both ends are held doubled, in halves of the column's unit: the
/// range they stand for is `twice_lower / 2 ..= twice_upper / 2`.
#[derive(Debug, Clone, Copy, PartialEq, Eq, Structural)]
pub struct Bounds {
    pub twice_lower: u128,
    pub twice_upper: u128,
}

impl Bounds {
    /// `value` lies within the bounds, ends included.
    pub open spec fn admits(self, value: u64) -> bool {
        self.twice_lower <= 2 * value <= self.twice_upper
    }

    /// A field lies within the bounds when it is present and its value does.
    pub open spec fn admits_field(self, field: Option<u64>) -> bool {
        match field {
            Some(value) => self.admits(value),
            None => false,
        }
    }

    /// Tells whether `value` lies within the bounds, ends included.
    pub fn contains(&self, value: u64) -> (inside: bool)
        ensures
            inside == self.admits(value),
    {
        let doubled: u128 = 2 * (value as u128);
        self.twice_lower <= doubled && doubled <= self.twice_upper
    }

    /// Tells whether a field is present and lies within the bounds.
    pub fn contains_field(&self, field: Option<u64>) -> (inside: bool)
        ensures
            inside == self.admits_field(field),
    {
        match field {
            Some(value) => self.contains(value),
            None => false,
        }
    }
}

/// Twice the lower bound that the quartiles `q1` and `q3` give:
/// `q1 - 1.5 * (q3 - q1)`, or zero where that is negative.
pub open spec fn twice_lower_of(q1: int, q3: int) -> int {
    let below = 2 * q1 - 3 * (q3 - q1);
    if below < 0 {
        0
    } else {
        below
    }
}

/// Twice the upper bound that the quartiles `q1` and `q3` give:
/// `q3 + 1.5 * (q3 - q1)`.
pub open spec fn twice_upper_of(q1: int, q3: int) -> int {
    2 * q3 + 3 * (q3 - q1)
}

/// The outlier bounds of a non-empty column: its quartiles are percentiles 25
/// and 75, and the bounds lie one and a half interquartile ranges outside
/// them, the lower one not below zero.
pub open spec fn bounds_of(s: Seq<u64>) -> Bounds
    recommends
        s.len() > 0,
{
    let q1 = percentile_of(s, 25) as int;
    let q3 = percentile_of(s, 75) as int;
    Bounds {
        twice_lower: twice_lower_of(q1, q3) as u128,
        twice_upper: twice_upper_of(q1, q3) as u128,
    }
}

/// The lower bound of a non-empty column is never above its upper bound, and
/// both quartiles lie within the bounds.
pub proof fn lemma_bounds_ordered(s: Seq<u64>)
    requires
        s.len() > 0,
    ensures
        bounds_of(s).twice_lower <= bounds_of(s).twice_upper,
        bounds_of(s).admits(percentile_of(s, 25)),
        bounds_of(s).admits(percentile_of(s, 75)),
{
    lemma_percentile_monotone(s, 25, 75);
}

/// A column of one value has that value as both of its bounds.
pub proof fn lemma_bounds_of_single(value: u64)
    ensures
        bounds_of(seq![value]).twice_lower == 2 * value,
        bounds_of(seq![value]).twice_upper == 2 * value,
{
    let s = seq![value];
    lemma_percentile_is_value(s, 25);
    lemma_percentile_is_value(s, 75);
}

/// Returns the outlier bounds of `data`. An empty column has none.
pub fn calculate_bounds(data: &[u64]) -> (result: Result<Bounds, EmptyInputError>)
    ensures
        result == if data@.len() == 0 {
            Err::<Bounds, EmptyInputError>(EmptyInputError)
        } else {
            Ok(bounds_of(data@))
        },
        result matches Ok(bounds) ==> bounds.twice_lower <= bounds.twice_upper,
{
    let n = data.len();
    if n == 0 {
        return Err(EmptyInputError);
    }
    let sorted = sort_ascending(data);
    proof {
        lemma_ascending(data@);
        lemma_percentile_monotone(data@, 25, 75);
    }
    let q1: u128 = sorted[rank_for(25, n)] as u128;
    let q3: u128 = sorted[rank_for(75, n)] as u128;
    let spread: u128 = 3 * (q3 - q1);
    let twice_lower: u128 = if 2 * q1 >= spread {
        2 * q1 - spread
    } else {
        0
    };
    let twice_upper: u128 = 2 * q3 + spread;
    Ok(Bounds { twice_lower, twice_upper })
}

} // verus!

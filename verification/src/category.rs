//! The fixed room-type vocabulary and the price categories.

use crate::percentile::{
    lemma_ascending, lemma_percentile_monotone, percentile_of, rank_for, sort_ascending,
    EmptyInputError,
};
use vstd::prelude::*;

verus! {

/// The code of a room type that is absent or not in the vocabulary.
pub const UNKNOWN_ROOM_TYPE: u8 = 3;

/// The code of a room type: 0 for an entire home or apartment, 1 for a
/// private room, 2 for a shared room, and 3 for anything else, an absent room
/// type included.
pub open spec fn room_type_code(room_type: Option<Seq<char>>) -> u8 {
    match room_type {
        Some(text) => if text == "Entire home/apt"@ {
            0
        } else if text == "Private room"@ {
            1
        } else if text == "Shared room"@ {
            2
        } else {
            3
        },
        None => 3,
    }
}

/// The text of a field that holds text, if it is present.
pub open spec fn text_of(field: Option<String>) -> Option<Seq<char>> {
    match field {
        Some(text) => Some(text@),
        None => None,
    }
}

/// Returns the code of a room type. Every input has a code, and the code is
/// one of 0, 1, 2 and 3.
pub fn encode_room_type(room_type: &Option<String>) -> (code: u8)
    ensures
        code == room_type_code(text_of(*room_type)),
        code <= UNKNOWN_ROOM_TYPE,
{
    match room_type {
        Some(text) => {
            if *text == "Entire home/apt".to_owned() {
                0
            } else if *text == "Private room".to_owned() {
                1
            } else if *text == "Shared room".to_owned() {
                2
            } else {
                UNKNOWN_ROOM_TYPE
            }
        },
        None => UNKNOWN_ROOM_TYPE,
    }
}

/// The three price categories, cheapest first.
#[derive(Debug, Clone, Copy, PartialEq, Eq, Structural)]
pub enum PriceCategory {
    Low,
    Medium,
    High,
}

impl PriceCategory {
    /// The label under which the category is written.
    pub open spec fn label(self) -> Seq<char> {
        match self {
            PriceCategory::Low => "low"@,
            PriceCategory::Medium => "medium"@,
            PriceCategory::High => "high"@,
        }
    }

    /// The class number of the category: 0, 1 and 2, cheapest first.
    pub open spec fn class(self) -> usize {
        match self {
            PriceCategory::Low => 0,
            PriceCategory::Medium => 1,
            PriceCategory::High => 2,
        }
    }

    /// The category that `label` names, if it names one.
    pub open spec fn of_label(label: Seq<char>) -> Option<PriceCategory> {
        if label == "low"@ {
            Some(PriceCategory::Low)
        } else if label == "medium"@ {
            Some(PriceCategory::Medium)
        } else if label == "high"@ {
            Some(PriceCategory::High)
        } else {
            None
        }
    }

    /// Returns the label under which the category is written.
    pub fn to_label(self) -> (label: String)
        ensures
            label@ == self.label(),
    {
        match self {
            PriceCategory::Low => "low".to_owned(),
            PriceCategory::Medium => "medium".to_owned(),
            PriceCategory::High => "high".to_owned(),
        }
    }

    /// Returns the category that `label` names, or `None` for any other text.
    pub fn from_label(label: &String) -> (category: Option<PriceCategory>)
        ensures
            category == PriceCategory::of_label(label@),
    {
        if *label == "low".to_owned() {
            Some(PriceCategory::Low)
        } else if *label == "medium".to_owned() {
            Some(PriceCategory::Medium)
        } else if *label == "high".to_owned() {
            Some(PriceCategory::High)
        } else {
            None
        }
    }

    /// Returns the class number of the category.
    pub fn target(self) -> (class: usize)
        ensures
            class == self.class(),
    {
        match self {
            PriceCategory::Low => 0,
            PriceCategory::Medium => 1,
            PriceCategory::High => 2,
        }
    }
}

/// A label names the category that is written under it.
pub proof fn lemma_label_round_trip(category: PriceCategory)
    ensures
        PriceCategory::of_label(category.label()) == Some(category),
{
    reveal_strlit("low");
    reveal_strlit("medium");
    reveal_strlit("high");
    assert("low"@.len() == 3);
    assert("medium"@.len() == 6);
    assert("high"@.len() == 4);
}

/// How many hundredths make one unit of the currency: a price is held as a
/// whole number of hundredths.
pub const PRICE_SCALE: u64 = 100;

/// The fixed limit below which a price is low: 100 units of the currency.
pub const FIXED_LOW_BELOW: u64 = 10_000;

/// The fixed limit below which a price is at most medium: 200 units of the
/// currency.
pub const FIXED_MEDIUM_BELOW: u64 = 20_000;

/// The two limits that part the price categories: a price below `low_below`
/// is low, any other price below `medium_below` is medium, and the rest are
/// high.
#[derive(Debug, Clone, Copy, PartialEq, Eq, Structural)]
pub struct PriceThresholds {
    pub low_below: u64,
    pub medium_below: u64,
}

/// Where the limits between the price categories come from.
#[derive(Debug, Clone, Copy, PartialEq, Eq, Structural)]
pub enum PriceCategoryPolicy {
    /// The limits are 100 and 200 units of the currency, whatever the data.
    Fixed,
    /// The limits are percentiles 33 and 66 of the prices at hand.
    Percentile,
}

/// The category of `price` under `thresholds`.
pub open spec fn category_of(price: u64, thresholds: PriceThresholds) -> PriceCategory {
    if price < thresholds.low_below {
        PriceCategory::Low
    } else if price < thresholds.medium_below {
        PriceCategory::Medium
    } else {
        PriceCategory::High
    }
}

/// The limits that `policy` sets for the prices `prices`, which the
/// percentile policy needs to be non-empty.
pub open spec fn thresholds_of(policy: PriceCategoryPolicy, prices: Seq<u64>) -> PriceThresholds {
    match policy {
        PriceCategoryPolicy::Fixed => PriceThresholds {
            low_below: FIXED_LOW_BELOW,
            medium_below: FIXED_MEDIUM_BELOW,
        },
        PriceCategoryPolicy::Percentile => PriceThresholds {
            low_below: percentile_of(prices, 33),
            medium_below: percentile_of(prices, 66),
        },
    }
}

/// Under either policy the limit of the low prices is not above the limit of
/// the medium ones.
pub proof fn lemma_thresholds_ordered(policy: PriceCategoryPolicy, prices: Seq<u64>)
    requires
        policy == PriceCategoryPolicy::Percentile ==> prices.len() > 0,
    ensures
        thresholds_of(policy, prices).low_below <= thresholds_of(policy, prices).medium_below,
{
    if policy == PriceCategoryPolicy::Percentile {
        lemma_percentile_monotone(prices, 33, 66);
    }
}

/// Returns the category of `price` under `thresholds`.
pub fn categorize_price(price: u64, thresholds: &PriceThresholds) -> (category: PriceCategory)
    ensures
        category == category_of(price, *thresholds),
{
    if price < thresholds.low_below {
        PriceCategory::Low
    } else if price < thresholds.medium_below {
        PriceCategory::Medium
    } else {
        PriceCategory::High
    }
}

/// Returns the limits that `policy` sets for `prices`. The percentile policy
/// fails on an empty column; the fixed policy never fails.
pub fn price_thresholds(policy: PriceCategoryPolicy, prices: &[u64]) -> (result: Result<
    PriceThresholds,
    EmptyInputError,
>)
    ensures
        result == if policy == PriceCategoryPolicy::Percentile && prices@.len() == 0 {
            Err::<PriceThresholds, EmptyInputError>(EmptyInputError)
        } else {
            Ok(thresholds_of(policy, prices@))
        },
{
    match policy {
        PriceCategoryPolicy::Fixed => Ok(
            PriceThresholds { low_below: FIXED_LOW_BELOW, medium_below: FIXED_MEDIUM_BELOW },
        ),
        PriceCategoryPolicy::Percentile => {
            let n = prices.len();
            if n == 0 {
                return Err(EmptyInputError);
            }
            let sorted = sort_ascending(prices);
            proof {
                lemma_ascending(prices@);
            }
            Ok(
                PriceThresholds {
                    low_below: sorted[rank_for(33, n)],
                    medium_below: sorted[rank_for(66, n)],
                },
            )
        },
    }
}

} // verus!

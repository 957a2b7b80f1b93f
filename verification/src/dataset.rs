//! Written listings on their way to a classifier: the split into a training
//! and a test set, and the features and targets as integers.

use crate::category::PriceCategory;
use crate::record::{AirbnbCleanedRecord, CleanedRecordView};
use rand::seq::SliceRandom;
use vstd::prelude::*;
use vstd::seq_lib::*;

verus! {

/// Puts the listings into a random order, with `rand`'s `thread_rng` and
/// `SliceRandom::shuffle`.
///
/// Trusted: `shuffle` only swaps elements of the slice, so the listings
/// after the call are those before it, each as often as before. Nothing is
/// said of their order. `thread_rng` panics where the system gives it no
/// seed.
#[verifier::external_body]
fn shuffle_records(records: &mut Vec<AirbnbCleanedRecord>)
    ensures
        final(records)@.to_multiset() == old(records)@.to_multiset(),
{
    let mut rng = rand::thread_rng();
    records.shuffle(&mut rng);
}

/// The number of listings that go to the training set when `percent` in a
/// hundred of `len` listings do, rounded down.
pub open spec fn split_index(len: nat, percent: nat) -> nat {
    len * percent / 100
}

/// Cuts `records` in two: the first `split_index` listings, and the rest.
pub fn split_at_percent(records: Vec<AirbnbCleanedRecord>, train_percent: u64) -> (parts: (
    Vec<AirbnbCleanedRecord>,
    Vec<AirbnbCleanedRecord>,
))
    requires
        train_percent <= 100,
    ensures
        parts.0@ == records@.subrange(
            0,
            split_index(records@.len(), train_percent as nat) as int,
        ),
        parts.1@ == records@.subrange(
            split_index(records@.len(), train_percent as nat) as int,
            records@.len() as int,
        ),
{
    let len = records.len();
    assert(len as int * train_percent as int <= 100 * len as int) by (nonlinear_arith)
        requires
            0 <= train_percent <= 100,
            0 <= len,
    ;
    let at: usize = ((len as u128 * train_percent as u128) / 100) as usize;
    let mut train = records;
    let test = train.split_off(at);
    (train, test)
}

/// Shuffles `records` and cuts them in two: `train_percent` in a hundred,
/// rounded down, go to the training set, and the rest to the test set.
/// Every listing ends up in exactly one of the two.
pub fn split_data(records: Vec<AirbnbCleanedRecord>, train_percent: u64) -> (parts: (
    Vec<AirbnbCleanedRecord>,
    Vec<AirbnbCleanedRecord>,
))
    requires
        train_percent <= 100,
    ensures
        parts.0@.len() == split_index(records@.len(), train_percent as nat),
        parts.0@.len() + parts.1@.len() == records@.len(),
        (parts.0@ + parts.1@).to_multiset() == records@.to_multiset(),
{
    broadcast use group_to_multiset_ensures;

    let mut shuffled = records;
    shuffle_records(&mut shuffled);
    let ghost shuffled_seq = shuffled@;
    assert(shuffled_seq.len() == records@.len()) by {
        assert(shuffled_seq.to_multiset().len() == records@.to_multiset().len());
    }
    assert(records@.len() * train_percent as nat / 100 <= records@.len()) by (nonlinear_arith)
        requires
            0 <= train_percent <= 100,
    ;
    let parts = split_at_percent(shuffled, train_percent);
    assert(parts.0@ + parts.1@ =~= shuffled_seq);
    parts
}

/// The number of features of a listing.
pub const FEATURE_COUNT: usize = 5;

/// The features of a written listing: the codes of its neighbourhood group,
/// of its neighbourhood and of its room type, then its minimum nights and
/// its number of reviews.
pub open spec fn feature_row(record: CleanedRecordView) -> Seq<u64> {
    seq![
        record.neighbourhood_group_encoded,
        record.neighbourhood_encoded,
        record.room_type_encoded as u64,
        record.minimum_nights,
        record.number_of_reviews,
    ]
}

/// The target of a written listing: the class number of its price category,
/// if its label names one.
pub open spec fn target_of(record: CleanedRecordView) -> Option<usize> {
    match PriceCategory::of_label(record.price_category) {
        Some(category) => Some(category.class()),
        None => None,
    }
}

/// Every listing of `records` has a target.
pub open spec fn all_have_targets(records: Seq<AirbnbCleanedRecord>) -> bool {
    forall|i: int| 0 <= i < records.len() ==> target_of(#[trigger] records[i]@) is Some
}

/// Returns the features and the target of each listing, in the order of the
/// listings: a row of `FEATURE_COUNT` features for each, and its class
/// number 0, 1 or 2. It returns `None` when the price category of some
/// listing is not one of the three labels.
pub fn preprocess_data(records: &[AirbnbCleanedRecord]) -> (result: Option<
    (Vec<[u64; 5]>, Vec<usize>),
>)
    ensures
        match result {
            Some((features, targets)) => {
                &&& all_have_targets(records@)
                &&& features@.len() == records@.len()
                &&& targets@.len() == records@.len()
                &&& forall|i: int|
                    0 <= i < records@.len() ==> (#[trigger] features@[i])@ == feature_row(
                        records@[i]@,
                    )
                &&& forall|i: int|
                    0 <= i < records@.len() ==> Some(#[trigger] targets@[i]) == target_of(
                        records@[i]@,
                    )
            },
            None => !all_have_targets(records@),
        },
{
    let mut features: Vec<[u64; 5]> = Vec::new();
    let mut targets: Vec<usize> = Vec::new();
    let mut i: usize = 0;
    while i < records.len()
        invariant
            i <= records.len(),
            features@.len() == i,
            targets@.len() == i,
            forall|k: int| 0 <= k < i ==> target_of(#[trigger] records@[k]@) is Some,
            forall|k: int|
                0 <= k < i ==> (#[trigger] features@[k])@ == feature_row(records@[k]@),
            forall|k: int| 0 <= k < i ==> Some(#[trigger] targets@[k]) == target_of(records@[k]@),
        decreases records.len() - i,
    {
        let record = &records[i];
        let target = match PriceCategory::from_label(&record.price_category) {
            Some(category) => category.target(),
            None => {
                assert(target_of(records@[i as int]@) is None);
                return None;
            },
        };
        let row: [u64; 5] = [
            record.neighbourhood_group_encoded,
            record.neighbourhood_encoded,
            record.room_type_encoded as u64,
            record.minimum_nights,
            record.number_of_reviews,
        ];
        assert(row@ =~= feature_row(record@));
        features.push(row);
        targets.push(target);
        i = i + 1;
    }
    Some((features, targets))
}

} // verus!

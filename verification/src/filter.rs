//! Outlier bounds over the numeric columns, and the filter that keeps the
//! listings within them.

use crate::bounds::{bounds_of, calculate_bounds, Bounds};
use crate::percentile::EmptyInputError;
use crate::record::{views, AirbnbRecord, Column, RecordView};
use vstd::prelude::*;

verus! {

/// The values of `column` in the listings that have one, in their order.
pub open spec fn column_values(records: Seq<RecordView>, column: Column) -> Seq<u64> {
    records.filter_map(|record: RecordView| record.value(column))
}

/// Returns the values of `column` in the listings that have one.
pub fn collect_column(records: &[AirbnbRecord], column: Column) -> (values: Vec<u64>)
    ensures
        values@ == column_values(views(records@), column),
{
    let ghost all = views(records@);
    let ghost field = |record: RecordView| record.value(column);
    let mut values: Vec<u64> = Vec::new();
    let mut i: usize = 0;
    assert(all.take(0) =~= Seq::<RecordView>::empty());
    while i < records.len()
        invariant
            i <= records.len(),
            all == views(records@),
            field == |record: RecordView| record.value(column),
            values@ == all.take(i as int).filter_map(field),
        decreases records.len() - i,
    {
        proof {
            all.lemma_filter_map_take_succ(field, i as int);
        }
        match records[i].value(column) {
            Some(value) => {
                values.push(value);
            },
            None => {},
        }
        i = i + 1;
    }
    assert(all.take(i as int) =~= all);
    values
}

/// The bounds of the four numeric columns.
#[derive(Debug, Clone, Copy, PartialEq, Eq, Structural)]
pub struct OutlierBounds {
    pub minimum_nights: Bounds,
    pub number_of_reviews: Bounds,
    pub price: Bounds,
    pub availability_365: Bounds,
}

impl OutlierBounds {
    /// The listing has all four numeric fields, each within its bounds.
    pub open spec fn admits(self, record: RecordView) -> bool {
        &&& self.minimum_nights.admits_field(record.minimum_nights)
        &&& self.number_of_reviews.admits_field(record.number_of_reviews)
        &&& self.price.admits_field(record.price)
        &&& self.availability_365.admits_field(record.availability_365)
    }

    /// Tells whether the listing has all four numeric fields, each within
    /// its bounds.
    pub fn contains(&self, record: &AirbnbRecord) -> (inside: bool)
        ensures
            inside == self.admits(record@),
    {
        self.minimum_nights.contains_field(record.minimum_nights)
            && self.number_of_reviews.contains_field(record.number_of_reviews)
            && self.price.contains_field(record.price) && self.availability_365.contains_field(
            record.availability_365,
        )
    }
}

/// Every numeric column holds a value in some listing.
pub open spec fn has_all_columns(records: Seq<RecordView>) -> bool {
    &&& column_values(records, Column::MinimumNights).len() > 0
    &&& column_values(records, Column::NumberOfReviews).len() > 0
    &&& column_values(records, Column::Price).len() > 0
    &&& column_values(records, Column::Availability365).len() > 0
}

/// The bounds of the four numeric columns of `records`, each taken over all
/// the values of its column.
pub open spec fn outlier_bounds_of(records: Seq<RecordView>) -> OutlierBounds
    recommends
        has_all_columns(records),
{
    OutlierBounds {
        minimum_nights: bounds_of(column_values(records, Column::MinimumNights)),
        number_of_reviews: bounds_of(column_values(records, Column::NumberOfReviews)),
        price: bounds_of(column_values(records, Column::Price)),
        availability_365: bounds_of(column_values(records, Column::Availability365)),
    }
}

/// Returns the bounds of the four numeric columns of `records`. It fails
/// when one of the columns holds no value at all.
pub fn outlier_bounds(records: &[AirbnbRecord]) -> (result: Result<
    OutlierBounds,
    EmptyInputError,
>)
    ensures
        result == if has_all_columns(views(records@)) {
            Ok::<OutlierBounds, EmptyInputError>(outlier_bounds_of(views(records@)))
        } else {
            Err(EmptyInputError)
        },
{
    let minimum_nights = match calculate_bounds(
        collect_column(records, Column::MinimumNights).as_slice(),
    ) {
        Ok(bounds) => bounds,
        Err(error) => {
            return Err(error);
        },
    };
    let number_of_reviews = match calculate_bounds(
        collect_column(records, Column::NumberOfReviews).as_slice(),
    ) {
        Ok(bounds) => bounds,
        Err(error) => {
            return Err(error);
        },
    };
    let price = match calculate_bounds(collect_column(records, Column::Price).as_slice()) {
        Ok(bounds) => bounds,
        Err(error) => {
            return Err(error);
        },
    };
    let availability_365 = match calculate_bounds(
        collect_column(records, Column::Availability365).as_slice(),
    ) {
        Ok(bounds) => bounds,
        Err(error) => {
            return Err(error);
        },
    };
    Ok(OutlierBounds { minimum_nights, number_of_reviews, price, availability_365 })
}

/// The listings of `records` whose field in `column` is present and within
/// `bounds`, in their order.
pub open spec fn retained_in_column(
    records: Seq<RecordView>,
    column: Column,
    bounds: Bounds,
) -> Seq<RecordView> {
    records.filter(|record: RecordView| bounds.admits_field(record.value(column)))
}

/// The listings of `records` that have all four numeric fields within their
/// bounds, in their order.
pub open spec fn retained(records: Seq<RecordView>, bounds: OutlierBounds) -> Seq<RecordView> {
    records.filter(|record: RecordView| bounds.admits(record))
}

/// Returns the listings whose field in `column` is present and within
/// `bounds`. A listing without the field is dropped.
pub fn filter_column(records: &[AirbnbRecord], column: Column, bounds: &Bounds) -> (kept: Vec<
    AirbnbRecord,
>)
    ensures
        views(kept@) == retained_in_column(views(records@), column, *bounds),
{
    let ghost all = views(records@);
    let ghost within = |record: RecordView| bounds.admits_field(record.value(column));
    let mut kept: Vec<AirbnbRecord> = Vec::new();
    let mut i: usize = 0;
    proof {
        assert(all.take(0) =~= Seq::<RecordView>::empty());
        assert(views(kept@) =~= Seq::<RecordView>::empty());
        all.take(0).lemma_filter_len(within);
    }
    while i < records.len()
        invariant
            i <= records.len(),
            all == views(records@),
            within == |record: RecordView| bounds.admits_field(record.value(column)),
            views(kept@) == all.take(i as int).filter(within),
        decreases records.len() - i,
    {
        let ghost before = views(kept@);
        proof {
            assert(all.take(i + 1) =~= all.take(i as int).push(records[i as int]@));
            all.take(i as int).lemma_filter_push(records[i as int]@, within);
        }
        if bounds.contains_field(records[i].value(column)) {
            kept.push(records[i].clone());
            assert(views(kept@) =~= before.push(records[i as int]@));
        }
        i = i + 1;
    }
    assert(all.take(i as int) =~= all);
    kept
}

/// Returns the listings that have all four numeric fields within their
/// bounds. A listing that fails one bound, or lacks one field, is dropped.
pub fn filter_outliers(records: &[AirbnbRecord], bounds: &OutlierBounds) -> (kept: Vec<
    AirbnbRecord,
>)
    ensures
        views(kept@) == retained(views(records@), *bounds),
{
    let ghost all = views(records@);
    let ghost within = |record: RecordView| bounds.admits(record);
    let mut kept: Vec<AirbnbRecord> = Vec::new();
    let mut i: usize = 0;
    proof {
        assert(all.take(0) =~= Seq::<RecordView>::empty());
        assert(views(kept@) =~= Seq::<RecordView>::empty());
        all.take(0).lemma_filter_len(within);
    }
    while i < records.len()
        invariant
            i <= records.len(),
            all == views(records@),
            within == |record: RecordView| bounds.admits(record),
            views(kept@) == all.take(i as int).filter(within),
        decreases records.len() - i,
    {
        let ghost before = views(kept@);
        proof {
            assert(all.take(i + 1) =~= all.take(i as int).push(records[i as int]@));
            all.take(i as int).lemma_filter_push(records[i as int]@, within);
        }
        if bounds.contains(&records[i]) {
            kept.push(records[i].clone());
            assert(views(kept@) =~= before.push(records[i as int]@));
        }
        i = i + 1;
    }
    assert(all.take(i as int) =~= all);
    kept
}

/// A filter keeps a sequence whose elements all pass it as it is.
proof fn lemma_filter_keeps_passing<A>(s: Seq<A>, pred: spec_fn(A) -> bool)
    requires
        forall|i: int| 0 <= i < s.len() ==> pred(#[trigger] s[i]),
    ensures
        s.filter(pred) == s,
    decreases s.len(),
{
    if s.len() == 0 {
        s.lemma_filter_len(pred);
        assert(s.filter(pred) =~= s);
    } else {
        let rest = s.drop_last();
        assert forall|i: int| 0 <= i < rest.len() implies pred(#[trigger] rest[i]) by {
            assert(rest[i] == s[i]);
        }
        lemma_filter_keeps_passing(rest, pred);
        rest.lemma_filter_push(s.last(), pred);
        assert(rest.push(s.last()) =~= s);
    }
}

/// Filtering twice by one predicate gives what filtering once gives.
proof fn lemma_filter_twice<A>(s: Seq<A>, pred: spec_fn(A) -> bool)
    ensures
        s.filter(pred).filter(pred) == s.filter(pred),
{
    let once = s.filter(pred);
    assert forall|i: int| 0 <= i < once.len() implies pred(#[trigger] once[i]) by {
        s.lemma_filter_pred(pred, i);
    }
    lemma_filter_keeps_passing(once, pred);
}

/// Filtering by one predicate and then by another keeps what passes both.
proof fn lemma_filter_both<A>(s: Seq<A>, first: spec_fn(A) -> bool, second: spec_fn(A) -> bool)
    ensures
        s.filter(first).filter(second) == s.filter(|a: A| first(a) && second(a)),
    decreases s.len(),
{
    let both = |a: A| first(a) && second(a);
    if s.len() == 0 {
        s.lemma_filter_len(first);
        s.filter(first).lemma_filter_len(second);
        s.lemma_filter_len(both);
        assert(s.filter(first).filter(second) =~= s.filter(both));
    } else {
        let rest = s.drop_last();
        lemma_filter_both(rest, first, second);
        assert(rest.push(s.last()) =~= s);
        rest.lemma_filter_push(s.last(), first);
        rest.lemma_filter_push(s.last(), both);
        rest.filter(first).lemma_filter_push(s.last(), second);
    }
}

/// Two predicates that agree on every value filter alike.
proof fn lemma_filter_same<A>(s: Seq<A>, one: spec_fn(A) -> bool, other: spec_fn(A) -> bool)
    requires
        forall|a: A| #[trigger] one(a) == other(a),
    ensures
        s.filter(one) == s.filter(other),
    decreases s.len(),
{
    if s.len() == 0 {
        s.lemma_filter_len(one);
        s.lemma_filter_len(other);
        assert(s.filter(one) =~= s.filter(other));
    } else {
        let rest = s.drop_last();
        lemma_filter_same(rest, one, other);
        assert(rest.push(s.last()) =~= s);
        rest.lemma_filter_push(s.last(), one);
        rest.lemma_filter_push(s.last(), other);
    }
}

/// Filtering by all four bounds at once keeps what filtering column after
/// column keeps: a listing stays only if it passes every one of them.
pub proof fn lemma_filter_is_columnwise(records: Seq<RecordView>, bounds: OutlierBounds)
    ensures
        retained(records, bounds) == retained_in_column(
            retained_in_column(
                retained_in_column(
                    retained_in_column(records, Column::MinimumNights, bounds.minimum_nights),
                    Column::NumberOfReviews,
                    bounds.number_of_reviews,
                ),
                Column::Price,
                bounds.price,
            ),
            Column::Availability365,
            bounds.availability_365,
        ),
{
    let nights = |record: RecordView|
        bounds.minimum_nights.admits_field(record.value(Column::MinimumNights));
    let reviews = |record: RecordView|
        bounds.number_of_reviews.admits_field(record.value(Column::NumberOfReviews));
    let price = |record: RecordView| bounds.price.admits_field(record.value(Column::Price));
    let availability = |record: RecordView|
        bounds.availability_365.admits_field(record.value(Column::Availability365));
    let two = |record: RecordView| nights(record) && reviews(record);
    let three = |record: RecordView| two(record) && price(record);
    let four = |record: RecordView| three(record) && availability(record);
    lemma_filter_both(records, nights, reviews);
    lemma_filter_both(records, two, price);
    lemma_filter_both(records, three, availability);
    lemma_filter_same(records, four, |record: RecordView| bounds.admits(record));
}

/// Listings that are all within the bounds pass the filter unchanged.
pub proof fn lemma_filter_keeps_inliers(records: Seq<RecordView>, bounds: OutlierBounds)
    requires
        forall|i: int| 0 <= i < records.len() ==> bounds.admits(#[trigger] records[i]),
    ensures
        retained(records, bounds) == records,
{
    lemma_filter_keeps_passing(records, |record: RecordView| bounds.admits(record));
}

/// Filtering what the filter kept, by the same bounds, changes nothing.
pub proof fn lemma_filter_idempotent(records: Seq<RecordView>, bounds: OutlierBounds)
    ensures
        retained(retained(records, bounds), bounds) == retained(records, bounds),
{
    lemma_filter_twice(records, |record: RecordView| bounds.admits(record));
}

/// Filtering one column again by the same bounds changes nothing.
pub proof fn lemma_filter_column_idempotent(
    records: Seq<RecordView>,
    column: Column,
    bounds: Bounds,
)
    ensures
        retained_in_column(retained_in_column(records, column, bounds), column, bounds)
            == retained_in_column(records, column, bounds),
{
    lemma_filter_twice(
        records,
        |record: RecordView| bounds.admits_field(record.value(column)),
    );
}

/// The filter keeps exactly the listings that are within the bounds: each
/// listing it keeps is one, and each listing that is one is kept.
pub proof fn lemma_filter_keeps_exactly(records: Seq<RecordView>, bounds: OutlierBounds)
    ensures
        forall|i: int|
            0 <= i < retained(records, bounds).len() ==> bounds.admits(
                #[trigger] retained(records, bounds)[i],
            ) && records.contains(retained(records, bounds)[i]),
        forall|i: int|
            0 <= i < records.len() && bounds.admits(records[i]) ==> retained(
                records,
                bounds,
            ).contains(#[trigger] records[i]),
{
    let within = |record: RecordView| bounds.admits(record);
    let kept = records.filter(within);
    assert forall|i: int| 0 <= i < kept.len() implies bounds.admits(#[trigger] kept[i])
        && records.contains(kept[i]) by {
        records.lemma_filter_pred(within, i);
        assert(kept.contains(kept[i]));
        records.lemma_filter_contains_rev(within, kept[i]);
    }
    assert forall|i: int| 0 <= i < records.len() && bounds.admits(records[i]) implies kept.contains(
        #[trigger] records[i],
    ) by {
        assert(within(records[i]));
        records.lemma_filter_contains(within, i);
    }
}

} // verus!

//! The cleaning run: statistics over all the listings, then the outlier
//! filter, then encoding, then the rows that are written.
//!
//! The statistics of the first stage are taken over every listing that was
//! read, before any listing is dropped: the bounds of a column and the codes
//! of a category depend on all of them.

use crate::category::{price_thresholds, thresholds_of, PriceCategoryPolicy, PriceThresholds};
use crate::encoding::{
    build_encoding, encoding_of, lemma_distinct_values, lookup, texts, EncodingMap,
};
use crate::filter::{
    collect_column, column_values, filter_outliers, has_all_columns, outlier_bounds,
    outlier_bounds_of, retained, OutlierBounds,
};
use crate::percentile::EmptyInputError;
use crate::record::{
    cleaned_views, codes_of_optional, encoded, views, AirbnbCleanedRecord, AirbnbRecord,
    CleanedRecordView, Column, RecordView,
};
use vstd::prelude::*;

verus! {

/// The categorical columns that get codes from the data.
#[derive(Debug, Clone, Copy, PartialEq, Eq, Structural)]
pub enum CategoricalColumn {
    NeighbourhoodGroup,
    Neighbourhood,
}

/// The text of a listing in a categorical column.
pub open spec fn text_in(record: RecordView, column: CategoricalColumn) -> Option<Seq<char>> {
    match column {
        CategoricalColumn::NeighbourhoodGroup => record.neighbourhood_group,
        CategoricalColumn::Neighbourhood => record.neighbourhood,
    }
}

/// The texts of `column` in the listings that have one, in their order.
pub open spec fn category_values(
    records: Seq<RecordView>,
    column: CategoricalColumn,
) -> Seq<Seq<char>> {
    records.filter_map(|record: RecordView| text_in(record, column))
}

/// Returns the texts of `column` in the listings that have one.
pub fn collect_category(records: &[AirbnbRecord], column: CategoricalColumn) -> (values: Vec<
    String,
>)
    ensures
        texts(values@) == category_values(views(records@), column),
{
    let ghost all = views(records@);
    let ghost field = |record: RecordView| text_in(record, column);
    let mut values: Vec<String> = Vec::new();
    let mut i: usize = 0;
    proof {
        assert(all.take(0) =~= Seq::<RecordView>::empty());
        assert(texts(values@) =~= Seq::<Seq<char>>::empty());
    }
    while i < records.len()
        invariant
            i <= records.len(),
            all == views(records@),
            field == |record: RecordView| text_in(record, column),
            texts(values@) == all.take(i as int).filter_map(field),
        decreases records.len() - i,
    {
        let ghost before = texts(values@);
        proof {
            all.lemma_filter_map_take_succ(field, i as int);
        }
        let text = match column {
            CategoricalColumn::NeighbourhoodGroup => &records[i].neighbourhood_group,
            CategoricalColumn::Neighbourhood => &records[i].neighbourhood,
        };
        match text {
            Some(text) => {
                values.push(text.clone());
                assert(texts(values@) =~= before + seq![text@]);
            },
            None => {},
        }
        i = i + 1;
    }
    assert(all.take(i as int) =~= all);
    values
}

/// Returns the codes of the values of `column` over all of `records`, in the
/// order in which the values first occur.
pub fn build_category_encoding(records: &[AirbnbRecord], column: CategoricalColumn) -> (map:
    EncodingMap)
    ensures
        map@ == encoding_of(category_values(views(records@), column)),
{
    let values = collect_category(records, column);
    build_encoding(values.as_slice())
}

/// Each listing of `records` with its encoded fields filled in.
pub open spec fn encoded_all(
    records: Seq<RecordView>,
    groups: Map<Seq<char>, nat>,
    neighbourhoods: Option<Map<Seq<char>, nat>>,
    thresholds: PriceThresholds,
) -> Seq<RecordView> {
    records.map_values(|record: RecordView| encoded(record, groups, neighbourhoods, thresholds))
}

/// Fills in the encoded fields of every listing.
pub fn encode_records(
    records: &mut Vec<AirbnbRecord>,
    neighbourhood_group_map: &EncodingMap,
    neighbourhood_map: Option<&EncodingMap>,
    price_thresholds: &PriceThresholds,
)
    ensures
        views(final(records)@) == encoded_all(
            views(old(records)@),
            neighbourhood_group_map@,
            codes_of_optional(neighbourhood_map),
            *price_thresholds,
        ),
{
    let ghost before = views(records@);
    let n = records.len();
    let mut i: usize = 0;
    while i < n
        invariant
            i <= n,
            n == records.len(),
            before.len() == n,
            forall|k: int|
                0 <= k < i ==> #[trigger] records[k]@ == encoded(
                    before[k],
                    neighbourhood_group_map@,
                    codes_of_optional(neighbourhood_map),
                    *price_thresholds,
                ),
            forall|k: int| i <= k < n ==> #[trigger] records[k]@ == before[k],
        decreases n - i,
    {
        records[i].encode_features(neighbourhood_group_map, neighbourhood_map, price_thresholds);
        i = i + 1;
    }
    assert(views(records@) =~= encoded_all(
        before,
        neighbourhood_group_map@,
        codes_of_optional(neighbourhood_map),
        *price_thresholds,
    ));
}

/// The rows that are written for `records`: one for each listing that has a
/// price and a neighbourhood group, in their order.
pub open spec fn emitted(records: Seq<RecordView>) -> Seq<CleanedRecordView> {
    records.filter_map(|record: RecordView| record.cleaned())
}

/// Returns the rows that are written for `records`. A listing that lacks its
/// price or its neighbourhood group is left out.
pub fn emit_records(records: &[AirbnbRecord]) -> (rows: Vec<AirbnbCleanedRecord>)
    ensures
        cleaned_views(rows@) == emitted(views(records@)),
{
    let ghost all = views(records@);
    let ghost row_of = |record: RecordView| record.cleaned();
    let mut rows: Vec<AirbnbCleanedRecord> = Vec::new();
    let mut i: usize = 0;
    proof {
        assert(all.take(0) =~= Seq::<RecordView>::empty());
        assert(cleaned_views(rows@) =~= Seq::<CleanedRecordView>::empty());
    }
    while i < records.len()
        invariant
            i <= records.len(),
            all == views(records@),
            row_of == |record: RecordView| record.cleaned(),
            cleaned_views(rows@) == all.take(i as int).filter_map(row_of),
        decreases records.len() - i,
    {
        let ghost before = cleaned_views(rows@);
        proof {
            all.lemma_filter_map_take_succ(row_of, i as int);
        }
        match records[i].to_cleaned() {
            Some(row) => {
                rows.push(row);
                assert(cleaned_views(rows@) =~= before + seq![row@]);
            },
            None => {},
        }
        i = i + 1;
    }
    assert(all.take(i as int) =~= all);
    rows
}

/// The prices by which the limits of the price categories are set: those of
/// the listings that the outlier filter keeps.
pub open spec fn kept_prices(records: Seq<RecordView>) -> Seq<u64> {
    column_values(retained(records, outlier_bounds_of(records)), Column::Price)
}

/// A cleaning run over `records` succeeds: every numeric column holds a
/// value, and under the percentile policy the filter keeps a listing.
pub open spec fn run_succeeds(records: Seq<RecordView>, policy: PriceCategoryPolicy) -> bool {
    &&& has_all_columns(records)
    &&& policy == PriceCategoryPolicy::Percentile ==> kept_prices(records).len() > 0
}

/// What a successful cleaning run writes for `records`. The bounds and the
/// codes come from all of `records`; the limits of the price categories
/// come from the listings that the filter keeps.
pub open spec fn cleaned_rows(
    records: Seq<RecordView>,
    policy: PriceCategoryPolicy,
) -> Seq<CleanedRecordView>
    recommends
        run_succeeds(records, policy),
{
    emitted(
        encoded_all(
            retained(records, outlier_bounds_of(records)),
            encoding_of(category_values(records, CategoricalColumn::NeighbourhoodGroup)),
            Some(encoding_of(category_values(records, CategoricalColumn::Neighbourhood))),
            thresholds_of(policy, kept_prices(records)),
        ),
    )
}

/// Cleans and encodes `records`: takes the bounds of the numeric columns
/// and the codes of the categories over all the listings, drops the
/// outliers, sets the limits of the price categories by `policy`, encodes
/// what is left, and returns the row of each listing that has a price and
/// a neighbourhood group. The run fails when a numeric column holds no
/// value, or when the percentile policy finds no listing left to take its
/// limits from.
pub fn clean_records(records: &[AirbnbRecord], policy: PriceCategoryPolicy) -> (result: Result<
    Vec<AirbnbCleanedRecord>,
    EmptyInputError,
>)
    ensures
        match result {
            Ok(rows) => run_succeeds(views(records@), policy) && cleaned_views(rows@)
                == cleaned_rows(views(records@), policy),
            Err(_) => !run_succeeds(views(records@), policy),
        },
{
    let bounds = match outlier_bounds(records) {
        Ok(bounds) => bounds,
        Err(error) => {
            return Err(error);
        },
    };
    let neighbourhood_groups = build_category_encoding(
        records,
        CategoricalColumn::NeighbourhoodGroup,
    );
    let neighbourhoods = build_category_encoding(records, CategoricalColumn::Neighbourhood);
    let mut kept = filter_outliers(records, &bounds);
    let prices = collect_column(kept.as_slice(), Column::Price);
    let thresholds = match price_thresholds(policy, prices.as_slice()) {
        Ok(thresholds) => thresholds,
        Err(error) => {
            return Err(error);
        },
    };
    encode_records(&mut kept, &neighbourhood_groups, Some(&neighbourhoods), &thresholds);
    Ok(emit_records(kept.as_slice()))
}

/// What `f` gives for an element of `s` is among what it gives for `s`.
proof fn lemma_filter_map_holds<A, B>(s: Seq<A>, f: spec_fn(A) -> Option<B>, i: int)
    requires
        0 <= i < s.len(),
        f(s[i]) is Some,
    ensures
        s.filter_map(f).contains(f(s[i]).unwrap()),
    decreases s.len(),
{
    let rest = s.drop_last();
    let found = f(s[i]).unwrap();
    if i < s.len() - 1 {
        lemma_filter_map_holds(rest, f, i);
        let k = choose|k: int| 0 <= k < rest.filter_map(f).len() && rest.filter_map(f)[k] == found;
        assert(s.filter_map(f)[k] == found);
    } else {
        assert(s.filter_map(f) == rest.filter_map(f) + seq![found]);
        assert(s.filter_map(f)[rest.filter_map(f).len() as int] == found);
    }
}

/// A value that occurs in a column has a code in the encoding of the column.
pub proof fn lemma_seen_value_has_code(
    records: Seq<RecordView>,
    column: CategoricalColumn,
    i: int,
)
    requires
        0 <= i < records.len(),
        text_in(records[i], column) is Some,
    ensures
        lookup(
            encoding_of(category_values(records, column)),
            text_in(records[i], column).unwrap(),
        ) is Some,
{
    let field = |record: RecordView| text_in(record, column);
    let values = records.filter_map(field);
    let value = text_in(records[i], column).unwrap();
    assert(values.contains(value)) by {
        lemma_filter_map_holds(records, field, i);
    }
    lemma_distinct_values(values);
}

/// The listing is written by a run whose outlier bounds are `bounds`: it has
/// a price and a neighbourhood group, and all four numeric fields within
/// their bounds.
pub open spec fn is_written(record: RecordView, bounds: OutlierBounds) -> bool {
    record.is_complete() && bounds.admits(record)
}

/// Filtering, encoding and emitting amount to one filter and one map.
proof fn lemma_stages_as_one_filter(
    records: Seq<RecordView>,
    bounds: OutlierBounds,
    groups: Map<Seq<char>, nat>,
    neighbourhoods: Option<Map<Seq<char>, nat>>,
    thresholds: PriceThresholds,
)
    ensures
        emitted(encoded_all(retained(records, bounds), groups, neighbourhoods, thresholds))
            == records.filter(|record: RecordView| is_written(record, bounds)).map_values(
            |record: RecordView| encoded(record, groups, neighbourhoods, thresholds).row(),
        ),
    decreases records.len(),
{
    let within = |record: RecordView| bounds.admits(record);
    let written = |record: RecordView| is_written(record, bounds);
    let encode = |record: RecordView| encoded(record, groups, neighbourhoods, thresholds);
    let row_of = |record: RecordView| record.cleaned();
    let write = |record: RecordView| encoded(record, groups, neighbourhoods, thresholds).row();
    let staged = records.filter(within).map_values(encode).filter_map(row_of);
    let direct = records.filter(written).map_values(write);
    if records.len() == 0 {
        records.lemma_filter_len(within);
        records.lemma_filter_len(written);
        assert(staged =~= direct);
    } else {
        let rest = records.drop_last();
        let last = records.last();
        lemma_stages_as_one_filter(rest, bounds, groups, neighbourhoods, thresholds);
        assert(rest.push(last) =~= records);
        rest.lemma_filter_push(last, within);
        rest.lemma_filter_push(last, written);
        let kept = rest.filter(within);
        if within(last) {
            assert(kept.push(last).map_values(encode) =~= kept.map_values(encode).push(
                encode(last),
            ));
            let encoded_kept = kept.map_values(encode);
            assert(encoded_kept.push(encode(last)).drop_last() =~= encoded_kept);
            if written(last) {
                assert(rest.filter(written).push(last).map_values(write) =~= rest.filter(
                    written,
                ).map_values(write).push(write(last)));
                assert(staged =~= direct);
            } else {
                assert(staged =~= direct);
            }
        } else {
            assert(staged =~= direct);
        }
    }
}

/// A row is written for a listing if and only if the listing has a price and
/// a neighbourhood group and passes every outlier bound: the rows of a
/// successful run are the encoded forms of exactly those listings, in their
/// order.
pub proof fn lemma_emission_complete(records: Seq<RecordView>, policy: PriceCategoryPolicy)
    requires
        run_succeeds(records, policy),
    ensures
        cleaned_rows(records, policy) == records.filter(
            |record: RecordView| is_written(record, outlier_bounds_of(records)),
        ).map_values(
            |record: RecordView|
                encoded(
                    record,
                    encoding_of(category_values(records, CategoricalColumn::NeighbourhoodGroup)),
                    Some(encoding_of(category_values(records, CategoricalColumn::Neighbourhood))),
                    thresholds_of(policy, kept_prices(records)),
                ).row(),
        ),
{
    lemma_stages_as_one_filter(
        records,
        outlier_bounds_of(records),
        encoding_of(category_values(records, CategoricalColumn::NeighbourhoodGroup)),
        Some(encoding_of(category_values(records, CategoricalColumn::Neighbourhood))),
        thresholds_of(policy, kept_prices(records)),
    );
}

} // verus!
